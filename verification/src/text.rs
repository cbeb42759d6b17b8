//! Character-level building blocks of the ZAP wire texts: decimal and
//! hexadecimal numerals and JSON string quoting, each with its
//! mathematical definition.
use vstd::prelude::*;
use vstd::string::StringExecFns;

verus! {

/// The character of a digit `d < 16`: `0`..`9`, then `a`..`f`.
pub open spec fn digit_char(d: nat) -> char {
    if d < 10 {
        (48 + d) as char
    } else {
        (87 + d) as char
    }
}

/// Decimal numeral of `n`, without leading zeros ("0" for zero).
pub open spec fn decimal(n: nat) -> Seq<char>
    decreases n,
{
    if n < 10 {
        seq![digit_char(n)]
    } else {
        decimal(n / 10).push(digit_char(n % 10))
    }
}

/// Lower-case hexadecimal numeral of `n`, without prefix or leading zeros.
pub open spec fn hex(n: nat) -> Seq<char>
    decreases n,
{
    if n < 16 {
        seq![digit_char(n)]
    } else {
        hex(n / 16).push(digit_char(n % 16))
    }
}

/// How JSON text escapes one character inside a string literal, following
/// the quoting of `JSON.stringify`.
pub open spec fn escape_char(c: char) -> Seq<char> {
    if c == '"' {
        seq!['\\', '"']
    } else if c == '\\' {
        seq!['\\', '\\']
    } else if c == '\u{8}' {
        seq!['\\', 'b']
    } else if c == '\u{c}' {
        seq!['\\', 'f']
    } else if c == '\n' {
        seq!['\\', 'n']
    } else if c == '\r' {
        seq!['\\', 'r']
    } else if c == '\t' {
        seq!['\\', 't']
    } else if (c as u32) < 0x20 {
        seq!['\\', 'u', '0', '0', digit_char((c as u32 / 16) as nat), digit_char((c as u32 % 16) as nat)]
    } else {
        seq![c]
    }
}

/// The escaped body of a JSON string literal.
pub open spec fn escape(s: Seq<char>) -> Seq<char>
    decreases s.len(),
{
    if s.len() == 0 {
        seq![]
    } else {
        escape(s.drop_last()) + escape_char(s.last())
    }
}

/// A JSON string literal holding `s`.
pub open spec fn quoted(s: Seq<char>) -> Seq<char> {
    seq!['"'] + escape(s) + seq!['"']
}

/// Items joined by commas.
pub open spec fn join(items: Seq<Seq<char>>) -> Seq<char>
    decreases items.len(),
{
    if items.len() == 0 {
        seq![]
    } else if items.len() == 1 {
        items[0]
    } else {
        join(items.drop_last()) + seq![','] + items.last()
    }
}

/// A JSON object written from its members, in order.
pub open spec fn object(members: Seq<Seq<char>>) -> Seq<char> {
    seq!['{'] + join(members) + seq!['}']
}

/// A JSON array written from the texts of its items, in order.
pub open spec fn array(items: Seq<Seq<char>>) -> Seq<char> {
    seq!['['] + join(items) + seq![']']
}

/// One member of a JSON object: the quoted key, a colon, the value's text.
pub open spec fn member(key: Seq<char>, value: Seq<char>) -> Seq<char> {
    quoted(key) + seq![':'] + value
}

/// The JSON literal of a boolean.
pub open spec fn boolean(b: bool) -> Seq<char> {
    if b {
        seq!['t', 'r', 'u', 'e']
    } else {
        seq!['f', 'a', 'l', 's', 'e']
    }
}

/// Appends one character (`String::push`).
#[verifier::external_body]
pub(crate) fn push_char(s: &mut String, c: char)
    ensures
        final(s)@ == old(s)@.push(c),
{
    s.push(c);
}

/// The digit character of `d`.
pub fn digit(d: u8) -> (c: char)
    requires
        d < 16,
    ensures
        c == digit_char(d as nat),
{
    if d < 10 {
        (48u8 + d) as char
    } else {
        (87u8 + d) as char
    }
}

/// Appends the decimal numeral of `n`.
pub fn push_decimal(out: &mut String, n: u64)
    ensures
        final(out)@ == old(out)@ + decimal(n as nat),
    decreases n,
{
    let ghost start = out@;
    if n >= 10 {
        push_decimal(out, n / 10);
    }
    let d = (n % 10) as u8;
    let c = digit(d);
    push_char(out, c);
    proof {
        if n >= 10 {
            assert(start + decimal(n as nat) =~= (start + decimal((n / 10) as nat)).push(c));
        } else {
            assert(start + decimal(n as nat) =~= start.push(c));
        }
    }
}

/// Appends the lower-case hexadecimal numeral of `n`.
pub fn push_hex(out: &mut String, n: u64)
    ensures
        final(out)@ == old(out)@ + hex(n as nat),
    decreases n,
{
    let ghost start = out@;
    if n >= 16 {
        push_hex(out, n / 16);
    }
    let d = (n % 16) as u8;
    let c = digit(d);
    push_char(out, c);
    proof {
        if n >= 16 {
            assert(start + hex(n as nat) =~= (start + hex((n / 16) as nat)).push(c));
        } else {
            assert(start + hex(n as nat) =~= start.push(c));
        }
    }
}

/// Appends the escaped form of one character.
fn push_escaped_char(out: &mut String, c: char)
    ensures
        final(out)@ == old(out)@ + escape_char(c),
{
    let ghost start = out@;
    if c == '"' {
        push_char(out, '\\');
        push_char(out, '"');
    } else if c == '\\' {
        push_char(out, '\\');
        push_char(out, '\\');
    } else if c == '\u{8}' {
        push_char(out, '\\');
        push_char(out, 'b');
    } else if c == '\u{c}' {
        push_char(out, '\\');
        push_char(out, 'f');
    } else if c == '\n' {
        push_char(out, '\\');
        push_char(out, 'n');
    } else if c == '\r' {
        push_char(out, '\\');
        push_char(out, 'r');
    } else if c == '\t' {
        push_char(out, '\\');
        push_char(out, 't');
    } else if (c as u32) < 0x20 {
        let code = c as u32;
        push_char(out, '\\');
        push_char(out, 'u');
        push_char(out, '0');
        push_char(out, '0');
        push_char(out, digit((code / 16) as u8));
        push_char(out, digit((code % 16) as u8));
    } else {
        push_char(out, c);
    }
    assert(out@ =~= start + escape_char(c));
}

/// Appends `s` as a JSON string literal.
pub fn push_quoted(out: &mut String, s: &str)
    ensures
        final(out)@ == old(out)@ + quoted(s@),
{
    let ghost start = out@;
    push_char(out, '"');
    let ghost whole = s@;
    let mut chars = s.chars();
    proof {
        broadcast use vstd::string::group_string_axioms;
    }
    let ghost mut done: int = 0;
    loop
        invariant
            0 <= done <= whole.len(),
            vstd::std_specs::iter::IteratorSpec::remaining(&chars) == whole.skip(done),
            out@ == start + seq!['"'] + escape(whole.take(done)),
        ensures
            done == whole.len(),
            out@ == start + seq!['"'] + escape(whole.take(done)),
        decreases whole.len() - done,
    {
        match chars.next() {
            Some(c) => {
                proof {
                    assert(whole.skip(done).len() > 0);
                }
                push_escaped_char(out, c);
                proof {
                    assert(whole.take(done + 1).drop_last() =~= whole.take(done));
                    assert(whole.take(done + 1).last() == c);
                    assert(vstd::std_specs::iter::IteratorSpec::remaining(&chars) =~= whole.skip(done + 1));
                    done = done + 1;
                }
            },
            None => {
                proof {
                    assert(whole.skip(done).len() == 0);
                }
                break;
            },
        }
    }
    push_char(out, '"');
    proof {
        assert(whole.take(done) =~= s@);
        assert(out@ =~= start + quoted(s@));
    }
}

/// Appends the JSON literal of a boolean.
pub fn push_boolean(out: &mut String, b: bool)
    ensures
        final(out)@ == old(out)@ + boolean(b),
{
    let ghost start = out@;
    if b {
        push_char(out, 't');
        push_char(out, 'r');
        push_char(out, 'u');
        push_char(out, 'e');
    } else {
        push_char(out, 'f');
        push_char(out, 'a');
        push_char(out, 'l');
        push_char(out, 's');
        push_char(out, 'e');
    }
    assert(out@ =~= start + boolean(b));
}

/// Appends a string slice (`String::push_str`).
pub fn push_text(out: &mut String, s: &str)
    ensures
        final(out)@ == old(out)@ + s@,
{
    out.append(s);
}

/// Joining one more item adds a comma and the item, or is the item itself
/// when nothing was joined yet.
pub proof fn lemma_join_push(items: Seq<Seq<char>>, item: Seq<char>)
    ensures
        join(items.push(item)) == if items.len() == 0 {
            item
        } else {
            join(items) + seq![','] + item
        },
{
    assert(items.push(item).drop_last() =~= items);
    if items.len() == 0 {
        assert(items.push(item)[0] == item);
    }
}

/// Builds a JSON object member by member; `text` always holds the opening
/// brace and the members written so far.
pub struct ObjectWriter {
    text: String,
    count: usize,
    members: Ghost<Seq<Seq<char>>>,
}

impl ObjectWriter {
    /// The members written so far.
    pub closed spec fn members(&self) -> Seq<Seq<char>> {
        self.members@
    }

    /// The writer's text is the opening brace and the joined members.
    pub closed spec fn wf(&self) -> bool {
        &&& self.text@ == seq!['{'] + join(self.members@)
        &&& self.count == self.members@.len()
    }

    /// An object with no member yet.
    pub fn new() -> (w: Self)
        ensures
            w.wf(),
            w.members() == Seq::<Seq<char>>::empty(),
    {
        let mut text = String::new();
        push_char(&mut text, '{');
        let w = ObjectWriter { text, count: 0, members: Ghost(Seq::empty()) };
        assert(w.text@ =~= seq!['{'] + join(Seq::<Seq<char>>::empty()));
        w
    }

    /// Writes the separator and the key of the next member; returns the
    /// text written before.
    fn start_member(&mut self, key: &str) -> (before: Ghost<Seq<char>>)
        requires
            old(self).wf(),
            old(self).count < usize::MAX,
        ensures
            before@ == old(self).text@,
            final(self).text@ == before@ + (if old(self).count == 0 {
                Seq::<char>::empty()
            } else {
                seq![',']
            }) + quoted(key@) + seq![':'],
            final(self).count == old(self).count,
            final(self).members == old(self).members,
    {
        let ghost before = self.text@;
        if self.count > 0 {
            push_char(&mut self.text, ',');
        }
        push_quoted(&mut self.text, key);
        push_char(&mut self.text, ':');
        proof {
            if old(self).count == 0 {
                assert(self.text@ =~= before + Seq::<char>::empty() + quoted(key@) + seq![':']);
            } else {
                assert(self.text@ =~= before + seq![','] + quoted(key@) + seq![':']);
            }
        }
        Ghost(before)
    }

    proof fn lemma_member_written(
        text: Seq<char>,
        before: Seq<char>,
        members: Seq<Seq<char>>,
        key: Seq<char>,
        value: Seq<char>,
    )
        requires
            text == before + (if members.len() == 0 {
                Seq::<char>::empty()
            } else {
                seq![',']
            }) + quoted(key) + seq![':'] + value,
            before == seq!['{'] + join(members),
        ensures
            text == seq!['{'] + join(members.push(member(key, value))),
    {
        lemma_join_push(members, member(key, value));
        assert(text =~= seq!['{'] + join(members.push(member(key, value))));
    }

    /// Writes a member whose value is raw JSON text.
    pub fn raw(&mut self, key: &str, value: &str)
        requires
            old(self).wf(),
            old(self).members().len() < usize::MAX,
        ensures
            final(self).wf(),
            final(self).members() == old(self).members().push(member(key@, value@)),
    {
        let before = self.start_member(key);
        push_text(&mut self.text, value);
        proof {
            Self::lemma_member_written(self.text@, before@, self.members@, key@, value@);
        }
        self.members = Ghost(self.members@.push(member(key@, value@)));
        self.count = self.count + 1;
    }

    /// Writes a member whose value is a JSON string.
    pub fn string(&mut self, key: &str, value: &str)
        requires
            old(self).wf(),
            old(self).members().len() < usize::MAX,
        ensures
            final(self).wf(),
            final(self).members() == old(self).members().push(member(key@, quoted(value@))),
    {
        let before = self.start_member(key);
        push_quoted(&mut self.text, value);
        proof {
            Self::lemma_member_written(self.text@, before@, self.members@, key@, quoted(value@));
        }
        self.members = Ghost(self.members@.push(member(key@, quoted(value@))));
        self.count = self.count + 1;
    }

    /// Writes a member whose value is a non-negative integer.
    pub fn number(&mut self, key: &str, value: u64)
        requires
            old(self).wf(),
            old(self).members().len() < usize::MAX,
        ensures
            final(self).wf(),
            final(self).members() == old(self).members().push(member(key@, decimal(value as nat))),
    {
        let before = self.start_member(key);
        push_decimal(&mut self.text, value);
        proof {
            Self::lemma_member_written(self.text@, before@, self.members@, key@, decimal(value as nat));
        }
        self.members = Ghost(self.members@.push(member(key@, decimal(value as nat))));
        self.count = self.count + 1;
    }

    /// Writes a member whose value is a boolean.
    pub fn flag(&mut self, key: &str, value: bool)
        requires
            old(self).wf(),
            old(self).members().len() < usize::MAX,
        ensures
            final(self).wf(),
            final(self).members() == old(self).members().push(member(key@, boolean(value))),
    {
        let before = self.start_member(key);
        push_boolean(&mut self.text, value);
        proof {
            Self::lemma_member_written(self.text@, before@, self.members@, key@, boolean(value));
        }
        self.members = Ghost(self.members@.push(member(key@, boolean(value))));
        self.count = self.count + 1;
    }

    /// Writes a member whose value is an array of JSON strings.
    pub fn strings(&mut self, key: &str, values: &Vec<String>)
        requires
            old(self).wf(),
            old(self).members().len() < usize::MAX,
        ensures
            final(self).wf(),
            final(self).members() == old(self).members().push(
                member(key@, array(quoted_all(values@))),
            ),
    {
        let before = self.start_member(key);
        push_string_array(&mut self.text, values);
        proof {
            Self::lemma_member_written(self.text@, before@, self.members@, key@, array(quoted_all(values@)));
        }
        self.members = Ghost(self.members@.push(member(key@, array(quoted_all(values@)))));
        self.count = self.count + 1;
    }

    /// Closes the object and returns its text.
    pub fn finish(self) -> (text: String)
        requires
            self.wf(),
        ensures
            text@ == object(self.members()),
    {
        let mut text = self.text;
        push_char(&mut text, '}');
        assert(text@ =~= object(self.members@));
        text
    }
}

/// The JSON string literals of a list of strings.
pub open spec fn quoted_all(values: Seq<String>) -> Seq<Seq<char>> {
    values.map_values(|v: String| quoted(v@))
}

/// Appends a JSON array of string literals.
pub fn push_string_array(out: &mut String, values: &Vec<String>)
    ensures
        final(out)@ == old(out)@ + array(quoted_all(values@)),
{
    let ghost start = out@;
    push_char(out, '[');
    let mut i: usize = 0;
    while i < values.len()
        invariant
            i <= values.len(),
            out@ == start + seq!['['] + join(quoted_all(values@.take(i as int))),
        decreases values.len() - i,
    {
        let ghost done = quoted_all(values@.take(i as int));
        let ghost next = quoted(values@[i as int]@);
        if i > 0 {
            push_char(out, ',');
        }
        push_quoted(out, values[i].as_str());
        proof {
            assert(quoted_all(values@.take(i as int + 1)) =~= done.push(next));
            lemma_join_push(done, next);
            if i == 0 {
                assert(out@ =~= start + seq!['['] + join(done.push(next)));
            } else {
                assert(out@ =~= start + seq!['['] + join(done.push(next)));
            }
        }
        i = i + 1;
    }
    push_char(out, ']');
    proof {
        assert(values@.take(values.len() as int) =~= values@);
        assert(out@ =~= start + array(quoted_all(values@)));
    }
}

/// Every character of a decimal numeral is a digit `0`..`9`.
pub proof fn lemma_decimal_is_digits(n: nat)
    ensures
        decimal(n).len() >= 1,
        n >= 10 ==> decimal(n).len() >= 2,
        forall|i: int| 0 <= i < decimal(n).len() ==> 48 <= #[trigger] decimal(n)[i] as u32 <= 57,
    decreases n,
{
    if n >= 10 {
        lemma_decimal_is_digits(n / 10);
        assert forall|i: int| 0 <= i < decimal(n).len() implies 48 <= #[trigger] decimal(n)[i] as u32
            <= 57 by {
            if i < decimal(n / 10).len() {
                assert(decimal(n)[i] == decimal(n / 10)[i]);
            } else {
                assert(decimal(n)[i] == digit_char(n % 10));
            }
        }
    } else {
        assert(decimal(n)[0] == digit_char(n));
    }
}

/// Different numbers have different decimal numerals.
pub proof fn lemma_decimal_injective(a: nat, b: nat)
    requires
        decimal(a) == decimal(b),
    ensures
        a == b,
    decreases a,
{
    lemma_decimal_is_digits(a);
    lemma_decimal_is_digits(b);
    if a < 10 && b < 10 {
        assert(decimal(a)[0] == digit_char(a));
        assert(decimal(b)[0] == digit_char(b));
        assert(digit_char(a) as u32 == digit_char(b) as u32);
    } else if a >= 10 && b >= 10 {
        assert(decimal(a) == decimal(a / 10).push(digit_char(a % 10)));
        assert(decimal(b) == decimal(b / 10).push(digit_char(b % 10)));
        assert(decimal(a).last() == digit_char(a % 10));
        assert(decimal(b).last() == digit_char(b % 10));
        assert(digit_char(a % 10) as u32 == digit_char(b % 10) as u32);
        assert(decimal(a).drop_last() =~= decimal(a / 10));
        assert(decimal(b).drop_last() =~= decimal(b / 10));
        lemma_decimal_injective(a / 10, b / 10);
    } else {
        assert(decimal(a).len() != decimal(b).len());
    }
}

/// Two parts free of `sep`, each followed by `sep`, are determined by the
/// joined text.
pub proof fn lemma_split_before(sep: char, x1: Seq<char>, y1: Seq<char>, x2: Seq<char>, y2: Seq<char>)
    requires
        forall|i: int| 0 <= i < x1.len() ==> x1[i] != sep,
        forall|i: int| 0 <= i < x2.len() ==> x2[i] != sep,
        x1 + seq![sep] + y1 == x2 + seq![sep] + y2,
    ensures
        x1 == x2,
        y1 == y2,
{
    let s1 = x1 + seq![sep] + y1;
    let s2 = x2 + seq![sep] + y2;
    if x1.len() < x2.len() {
        assert(s1[x1.len() as int] == sep);
        assert(s2[x1.len() as int] == x2[x1.len() as int]);
    } else if x2.len() < x1.len() {
        assert(s2[x2.len() as int] == sep);
        assert(s1[x2.len() as int] == x1[x2.len() as int]);
    } else {
        assert(x1 =~= s1.take(x1.len() as int));
        assert(x2 =~= s2.take(x2.len() as int));
        assert(y1 =~= s1.skip(x1.len() as int + 1));
        assert(y2 =~= s2.skip(x2.len() as int + 1));
    }
}

/// A character that JSON needs no escape for: not a control character, a
/// quote or a backslash.
pub open spec fn plain_char(c: char) -> bool {
    c as u32 >= 0x20 && c != '"' && c != '\\'
}

/// Quoting is that of `JSON.stringify`: every plain character is written as
/// itself, and every other one as one of the escapes `\"`, `\\`, `\b`,
/// `\f`, `\n`, `\r`, `\t` or `\u00XX` with lower-case hex digits `XX` of
/// its code.
pub proof fn lemma_escape_char_is_json(c: char)
    ensures
        plain_char(c) ==> escape_char(c) == seq![c],
        c == '"' ==> escape_char(c) == seq!['\\', '"'],
        c == '\\' ==> escape_char(c) == seq!['\\', '\\'],
        c == '\u{8}' ==> escape_char(c) == seq!['\\', 'b'],
        c == '\u{c}' ==> escape_char(c) == seq!['\\', 'f'],
        c == '\n' ==> escape_char(c) == seq!['\\', 'n'],
        c == '\r' ==> escape_char(c) == seq!['\\', 'r'],
        c == '\t' ==> escape_char(c) == seq!['\\', 't'],
        (c as u32) < 0x20 && c != '\u{8}' && c != '\u{c}' && c != '\n' && c != '\r' && c != '\t'
            ==> escape_char(c) == seq!['\\', 'u', '0', '0'] + hex_pair(c as u32),
{
}

/// The two lower-case hex digits of a code below 0x100.
pub open spec fn hex_pair(code: u32) -> Seq<char> {
    seq![
        if code / 16 < 10 { ((code / 16) + 48) as char } else { ((code / 16) + 87) as char },
        if code % 16 < 10 { ((code % 16) + 48) as char } else { ((code % 16) + 87) as char },
    ]
}

/// A text of plain characters is quoted as itself between quotes.
pub proof fn lemma_quoted_plain(s: Seq<char>)
    requires
        forall|i: int| 0 <= i < s.len() ==> plain_char(#[trigger] s[i]),
    ensures
        escape(s) == s,
        quoted(s) == seq!['"'] + s + seq!['"'],
    decreases s.len(),
{
    if s.len() > 0 {
        let front = s.drop_last();
        assert forall|i: int| 0 <= i < front.len() implies plain_char(#[trigger] front[i]) by {
            assert(front[i] == s[i]);
        }
        lemma_quoted_plain(front);
        lemma_escape_char_is_json(s.last());
        assert(s.last() == s[s.len() - 1]);
        assert(front + seq![s.last()] =~= s);
    }
}

} // verus!
