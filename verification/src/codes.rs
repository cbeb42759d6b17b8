//! The numeric codes of the protocol: client kinds, message types and
//! browser actions, each a bijection between the enum and its codes.
use vstd::prelude::*;

verus! {

/// The kind of peer that opens a ZAP session.
#[derive(Clone, Copy, Debug, PartialEq, Eq, Structural)]
pub enum ClientType {
    Unknown,
    BrowserExtension,
    McpServer,
    McpClient,
    Agent,
}

impl ClientType {
    /// The code of each client kind on the wire.
    pub open spec fn code_of(self) -> u8 {
        match self {
            ClientType::McpServer => 0,
            ClientType::McpClient => 1,
            ClientType::BrowserExtension => 2,
            ClientType::Agent => 3,
            ClientType::Unknown => 4,
        }
    }

    /// The code of this client kind.
    pub fn code(&self) -> (c: u8)
        ensures
            c == self.code_of(),
    {
        match self {
            ClientType::McpServer => 0,
            ClientType::McpClient => 1,
            ClientType::BrowserExtension => 2,
            ClientType::Agent => 3,
            ClientType::Unknown => 4,
        }
    }

    /// The client kind with code `c`, if any.
    pub fn from_code(c: u8) -> (t: Option<ClientType>)
        ensures
            t matches Some(k) ==> k.code_of() == c,
            t is None <==> (forall|k: ClientType| k.code_of() != c),
    {
        let t = match c {
            0 => Some(ClientType::McpServer),
            1 => Some(ClientType::McpClient),
            2 => Some(ClientType::BrowserExtension),
            3 => Some(ClientType::Agent),
            4 => Some(ClientType::Unknown),
            _ => None,
        };
        proof {
            if let Some(k) = t {
                assert(k.code_of() == c);
            }
            if t is None {
                assert forall|k: ClientType| k.code_of() != c by {
                    match k {
                        ClientType::McpServer => {},
                        ClientType::McpClient => {},
                        ClientType::BrowserExtension => {},
                        ClientType::Agent => {},
                        ClientType::Unknown => {},
                    }
                }
            }
        }
        t
    }
}

/// No two client kinds share a code.
pub proof fn lemma_client_type_code_injective(a: ClientType, b: ClientType)
    ensures
        a.code_of() == b.code_of() ==> a == b,
{
}

/// The kind of a ZAP message, carried in the byte after the magic.
#[derive(Clone, Copy, Debug, PartialEq, Eq, Structural)]
pub enum MessageType {
    Handshake,
    HandshakeResponse,
    Request,
    Response,
    Stream,
    Ping,
    Pong,
}

impl MessageType {
    /// The code of each message type on the wire.
    pub open spec fn code_of(self) -> u8 {
        match self {
            MessageType::Handshake => 1,
            MessageType::HandshakeResponse => 2,
            MessageType::Request => 3,
            MessageType::Response => 4,
            MessageType::Stream => 5,
            MessageType::Ping => 6,
            MessageType::Pong => 7,
        }
    }

    /// The code of this message type.
    pub fn code(&self) -> (c: u8)
        ensures
            c == self.code_of(),
    {
        match self {
            MessageType::Handshake => 1,
            MessageType::HandshakeResponse => 2,
            MessageType::Request => 3,
            MessageType::Response => 4,
            MessageType::Stream => 5,
            MessageType::Ping => 6,
            MessageType::Pong => 7,
        }
    }

    /// The message type with code `c`, if any.
    pub fn from_code(c: u8) -> (t: Option<MessageType>)
        ensures
            t matches Some(k) ==> k.code_of() == c,
            t is None <==> (forall|k: MessageType| k.code_of() != c),
    {
        let t = match c {
            1 => Some(MessageType::Handshake),
            2 => Some(MessageType::HandshakeResponse),
            3 => Some(MessageType::Request),
            4 => Some(MessageType::Response),
            5 => Some(MessageType::Stream),
            6 => Some(MessageType::Ping),
            7 => Some(MessageType::Pong),
            _ => None,
        };
        proof {
            if t is None {
                assert forall|k: MessageType| k.code_of() != c by {
                    match k {
                        MessageType::Handshake => {},
                        MessageType::HandshakeResponse => {},
                        MessageType::Request => {},
                        MessageType::Response => {},
                        MessageType::Stream => {},
                        MessageType::Ping => {},
                        MessageType::Pong => {},
                    }
                }
            }
        }
        t
    }
}

/// No two message types share a code, and every code is in `1..=7`.
pub proof fn lemma_message_type_codes(a: MessageType, b: MessageType)
    ensures
        a.code_of() == b.code_of() ==> a == b,
        1 <= a.code_of() <= 7,
{
}

/// An action that a browser extension performs for an agent.
#[derive(Clone, Copy, Debug, PartialEq, Eq, Structural)]
pub enum BrowserAction {
    NoAction,
    Navigate,
    Reload,
    Back,
    Forward,
    Click,
    Type,
    Fill,
    Select,
    Scroll,
    Hover,
    Evaluate,
    NewPage,
    ClosePage,
    ListPages,
    GetActivePage,
    Screenshot,
    GetTabs,
    SetActiveTab,
    CloseTab,
    NewTab,
    GetCookies,
    SetCookie,
    ClearCookies,
    GetStorage,
    SetStorage,
    Status,
    Ping,
}

impl BrowserAction {
    /// The code of each browser action on the wire.
    pub open spec fn code_of(self) -> u8 {
        match self {
            BrowserAction::NoAction => 0,
            BrowserAction::Navigate => 1,
            BrowserAction::Reload => 2,
            BrowserAction::Back => 3,
            BrowserAction::Forward => 4,
            BrowserAction::Click => 10,
            BrowserAction::Type => 11,
            BrowserAction::Fill => 12,
            BrowserAction::Select => 13,
            BrowserAction::Scroll => 14,
            BrowserAction::Hover => 15,
            BrowserAction::Evaluate => 20,
            BrowserAction::NewPage => 30,
            BrowserAction::ClosePage => 31,
            BrowserAction::ListPages => 32,
            BrowserAction::GetActivePage => 33,
            BrowserAction::Screenshot => 40,
            BrowserAction::GetTabs => 50,
            BrowserAction::SetActiveTab => 51,
            BrowserAction::CloseTab => 52,
            BrowserAction::NewTab => 53,
            BrowserAction::GetCookies => 60,
            BrowserAction::SetCookie => 61,
            BrowserAction::ClearCookies => 62,
            BrowserAction::GetStorage => 63,
            BrowserAction::SetStorage => 64,
            BrowserAction::Status => 70,
            BrowserAction::Ping => 71,
        }
    }

    /// The code of this browser action.
    pub fn code(&self) -> (c: u8)
        ensures
            c == self.code_of(),
    {
        match self {
            BrowserAction::NoAction => 0,
            BrowserAction::Navigate => 1,
            BrowserAction::Reload => 2,
            BrowserAction::Back => 3,
            BrowserAction::Forward => 4,
            BrowserAction::Click => 10,
            BrowserAction::Type => 11,
            BrowserAction::Fill => 12,
            BrowserAction::Select => 13,
            BrowserAction::Scroll => 14,
            BrowserAction::Hover => 15,
            BrowserAction::Evaluate => 20,
            BrowserAction::NewPage => 30,
            BrowserAction::ClosePage => 31,
            BrowserAction::ListPages => 32,
            BrowserAction::GetActivePage => 33,
            BrowserAction::Screenshot => 40,
            BrowserAction::GetTabs => 50,
            BrowserAction::SetActiveTab => 51,
            BrowserAction::CloseTab => 52,
            BrowserAction::NewTab => 53,
            BrowserAction::GetCookies => 60,
            BrowserAction::SetCookie => 61,
            BrowserAction::ClearCookies => 62,
            BrowserAction::GetStorage => 63,
            BrowserAction::SetStorage => 64,
            BrowserAction::Status => 70,
            BrowserAction::Ping => 71,
        }
    }

    /// The browser action with code `c`, if any.
    pub fn from_code(c: u8) -> (a: Option<BrowserAction>)
        ensures
            a matches Some(k) ==> k.code_of() == c,
            a is None <==> (forall|k: BrowserAction| k.code_of() != c),
    {
        let a = match c {
            0 => Some(BrowserAction::NoAction),
            1 => Some(BrowserAction::Navigate),
            2 => Some(BrowserAction::Reload),
            3 => Some(BrowserAction::Back),
            4 => Some(BrowserAction::Forward),
            10 => Some(BrowserAction::Click),
            11 => Some(BrowserAction::Type),
            12 => Some(BrowserAction::Fill),
            13 => Some(BrowserAction::Select),
            14 => Some(BrowserAction::Scroll),
            15 => Some(BrowserAction::Hover),
            20 => Some(BrowserAction::Evaluate),
            30 => Some(BrowserAction::NewPage),
            31 => Some(BrowserAction::ClosePage),
            32 => Some(BrowserAction::ListPages),
            33 => Some(BrowserAction::GetActivePage),
            40 => Some(BrowserAction::Screenshot),
            50 => Some(BrowserAction::GetTabs),
            51 => Some(BrowserAction::SetActiveTab),
            52 => Some(BrowserAction::CloseTab),
            53 => Some(BrowserAction::NewTab),
            60 => Some(BrowserAction::GetCookies),
            61 => Some(BrowserAction::SetCookie),
            62 => Some(BrowserAction::ClearCookies),
            63 => Some(BrowserAction::GetStorage),
            64 => Some(BrowserAction::SetStorage),
            70 => Some(BrowserAction::Status),
            71 => Some(BrowserAction::Ping),
            _ => None,
        };
        proof {
            if let Some(k) = a {
                assert(k.code_of() == c);
            }
            if a is None {
                assert forall|k: BrowserAction| k.code_of() != c by {
                    lemma_browser_action_code_cases(k);
                }
            }
        }
        a
    }
}

proof fn lemma_browser_action_code_cases(k: BrowserAction)
    ensures
        k.code_of() <= 4 || (10 <= k.code_of() <= 15) || k.code_of() == 20 || (30
            <= k.code_of() <= 33) || k.code_of() == 40 || (50 <= k.code_of() <= 53) || (60
            <= k.code_of() <= 64) || k.code_of() == 70 || k.code_of() == 71,
{
}

/// No two browser actions share a code.
pub proof fn lemma_browser_action_code_injective(a: BrowserAction, b: BrowserAction)
    ensures
        a.code_of() == b.code_of() ==> a == b,
{
}

/// The wire codes of the browser actions, as the protocol fixes them; and
/// decoding each of these codes gives its action back.
pub proof fn lemma_browser_action_wire_codes()
    ensures
        BrowserAction::NoAction.code_of() == 0,
        BrowserAction::Navigate.code_of() == 1,
        BrowserAction::Reload.code_of() == 2,
        BrowserAction::Back.code_of() == 3,
        BrowserAction::Forward.code_of() == 4,
        BrowserAction::Click.code_of() == 10,
        BrowserAction::Type.code_of() == 11,
        BrowserAction::Fill.code_of() == 12,
        BrowserAction::Select.code_of() == 13,
        BrowserAction::Scroll.code_of() == 14,
        BrowserAction::Hover.code_of() == 15,
        BrowserAction::Evaluate.code_of() == 20,
        BrowserAction::NewPage.code_of() == 30,
        BrowserAction::ClosePage.code_of() == 31,
        BrowserAction::ListPages.code_of() == 32,
        BrowserAction::GetActivePage.code_of() == 33,
        BrowserAction::Screenshot.code_of() == 40,
        BrowserAction::GetTabs.code_of() == 50,
        BrowserAction::SetActiveTab.code_of() == 51,
        BrowserAction::CloseTab.code_of() == 52,
        BrowserAction::NewTab.code_of() == 53,
        BrowserAction::GetCookies.code_of() == 60,
        BrowserAction::SetCookie.code_of() == 61,
        BrowserAction::ClearCookies.code_of() == 62,
        BrowserAction::GetStorage.code_of() == 63,
        BrowserAction::SetStorage.code_of() == 64,
        BrowserAction::Status.code_of() == 70,
        BrowserAction::Ping.code_of() == 71,
{
}

/// The wire codes of the message types, as the protocol fixes them.
pub proof fn lemma_message_type_wire_codes()
    ensures
        MessageType::Handshake.code_of() == 1,
        MessageType::HandshakeResponse.code_of() == 2,
        MessageType::Request.code_of() == 3,
        MessageType::Response.code_of() == 4,
        MessageType::Stream.code_of() == 5,
        MessageType::Ping.code_of() == 6,
        MessageType::Pong.code_of() == 7,
{
}

/// The wire codes of the client kinds.
pub proof fn lemma_client_type_wire_codes()
    ensures
        ClientType::McpServer.code_of() == 0,
        ClientType::McpClient.code_of() == 1,
        ClientType::BrowserExtension.code_of() == 2,
        ClientType::Agent.code_of() == 3,
        ClientType::Unknown.code_of() == 4,
{
}

} // verus!
