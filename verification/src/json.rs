use vstd::prelude::*;

verus! {

/// A JSON value. Numbers are held as the text that denotes them, so that a
/// value read from a reply is written back exactly as the parser shows it.
/// Object members keep the order in which they were given; a value read by
/// serde_json is `well_formed`: its member names are distinct and ordered.
#[derive(Debug)]
pub enum Json {
    Null,
    Bool(bool),
    Number(String),
    Str(String),
    Array(Vec<Json>),
    Object(Vec<(String, Json)>),
}

/// Whether the name `a` comes before the name `b` in the order in which
/// serde_json keeps object members: character by character, a proper prefix
/// first (comparing code points is comparing UTF-8 bytes).
pub open spec fn name_before(a: Seq<char>, b: Seq<char>) -> bool
    decreases a.len(),
{
    if a.len() == 0 {
        b.len() > 0
    } else if b.len() == 0 {
        false
    } else if a[0] != b[0] {
        (a[0] as u32) < (b[0] as u32)
    } else {
        name_before(a.drop_first(), b.drop_first())
    }
}

/// The member names come in serde_json's order, each once.
pub open spec fn names_ordered(members: Seq<(String, Json)>) -> bool {
    forall|i: int, k: int| 0 <= i < k < members.len() ==> name_before(#[trigger] members[i].0@, #[trigger] members[k].0@)
}

/// Whether `j` is a value as serde_json holds one: in every object, at any
/// depth, the member names are distinct and in serde_json's order.
pub open spec fn well_formed(j: Json) -> bool
    decreases j,
{
    match j {
        Json::Array(items) => items_well_formed(items@),
        Json::Object(members) => names_ordered(members@) && members_well_formed(members@),
        _ => true,
    }
}

/// Every element is well formed.
pub open spec fn items_well_formed(items: Seq<Json>) -> bool
    decreases items,
{
    if items.len() == 0 {
        true
    } else {
        items_well_formed(items.drop_last()) && well_formed(items.last())
    }
}

/// Every member's value is well formed.
pub open spec fn members_well_formed(members: Seq<(String, Json)>) -> bool
    decreases members,
{
    if members.len() == 0 {
        true
    } else {
        members_well_formed(members.drop_last()) && well_formed(members.last().1)
    }
}

/// No name comes before itself.
proof fn lemma_name_before_irreflexive(a: Seq<char>)
    ensures
        !name_before(a, a),
    decreases a.len(),
{
    if a.len() > 0 {
        lemma_name_before_irreflexive(a.drop_first());
    }
}

/// The first member named as member `i` is member `i` where no earlier
/// member has its name.
proof fn lemma_member_value_at(members: Seq<(String, Json)>, i: int)
    requires
        0 <= i < members.len(),
        forall|k: int| 0 <= k < i ==> (#[trigger] members[k]).0@ != members[i].0@,
    ensures
        member_value(members, members[i].0@) == Some(members[i].1),
    decreases i,
{
    if i > 0 {
        let rest = members.drop_first();
        assert(rest[i - 1] == members[i]);
        assert forall|k: int| 0 <= k < i - 1 implies (#[trigger] rest[k]).0@ != rest[i - 1].0@ by {
            assert(rest[k] == members[k + 1]);
        }
        lemma_member_value_at(rest, i - 1);
        assert(members[0].0@ != members[i].0@);
    }
}

/// In a well-formed object every name belongs to one member, so the value
/// looked up by a member's name is that member's value.
pub proof fn law_lookup_finds_the_named_member(members: Vec<(String, Json)>, i: int)
    requires
        well_formed(Json::Object(members)),
        0 <= i < members.len(),
    ensures
        lookup(Json::Object(members), members@[i].0@) == Some(members@[i].1),
{
    let ms = members@;
    assert forall|k: int| 0 <= k < i implies (#[trigger] ms[k]).0@ != ms[i].0@ by {
        assert(name_before(ms[k].0@, ms[i].0@));
        lemma_name_before_irreflexive(ms[i].0@);
    }
    lemma_member_value_at(ms, i);
}

/// The lower-case hexadecimal digit of `d` (0..16).
pub open spec fn hex_digit(d: int) -> char {
    seq!['0', '1', '2', '3', '4', '5', '6', '7', '8', '9', 'a', 'b', 'c', 'd', 'e', 'f'][d]
}

/// The decimal digit of `d` (0..10).
pub open spec fn decimal_digit(d: int) -> char {
    seq!['0', '1', '2', '3', '4', '5', '6', '7', '8', '9'][d]
}

/// How one character is written inside a JSON string: quote and backslash
/// are escaped, the control characters below U+0020 take their short escape
/// where JSON has one and `\u00XX` otherwise; every other character stands
/// for itself.
pub open spec fn escaped_char(c: char) -> Seq<char> {
    if c == '"' {
        seq!['\\', '"']
    } else if c == '\\' {
        seq!['\\', '\\']
    } else if c == '\x08' {
        seq!['\\', 'b']
    } else if c == '\x0c' {
        seq!['\\', 'f']
    } else if c == '\n' {
        seq!['\\', 'n']
    } else if c == '\r' {
        seq!['\\', 'r']
    } else if c == '\t' {
        seq!['\\', 't']
    } else if (c as u32) < 0x20 {
        seq!['\\', 'u', '0', '0', hex_digit((c as int) / 16), hex_digit((c as int) % 16)]
    } else {
        seq![c]
    }
}

/// The characters of `s`, each escaped as in a JSON string.
pub open spec fn escaped_text(s: Seq<char>) -> Seq<char>
    decreases s.len(),
{
    if s.len() == 0 {
        seq![]
    } else {
        escaped_text(s.drop_last()) + escaped_char(s.last())
    }
}

/// `s` as a JSON string literal.
pub open spec fn quoted(s: Seq<char>) -> Seq<char> {
    seq!['"'] + escaped_text(s) + seq!['"']
}

/// The decimal numeral of `n`, without sign or leading zeros.
pub open spec fn decimal(n: nat) -> Seq<char>
    decreases n,
{
    if n < 10 {
        seq![decimal_digit(n as int)]
    } else {
        decimal(n / 10).push(decimal_digit((n % 10) as int))
    }
}

/// The compact JSON text of a value: no whitespace, members and elements
/// separated by commas, in their stored order.
pub open spec fn rendered(j: Json) -> Seq<char>
    decreases j,
{
    match j {
        Json::Null => "null"@,
        Json::Bool(b) => if b { "true"@ } else { "false"@ },
        Json::Number(n) => n@,
        Json::Str(s) => quoted(s@),
        Json::Array(items) => seq!['['] + rendered_items(items@) + seq![']'],
        Json::Object(members) => seq!['{'] + rendered_members(members@) + seq!['}'],
    }
}

/// The elements of an array, separated by commas.
pub open spec fn rendered_items(items: Seq<Json>) -> Seq<char>
    decreases items,
{
    if items.len() == 0 {
        seq![]
    } else if items.len() == 1 {
        rendered(items[0])
    } else {
        rendered_items(items.drop_last()) + seq![','] + rendered(items.last())
    }
}

/// One object member: its quoted name, a colon and its value.
pub open spec fn rendered_member(m: (String, Json)) -> Seq<char>
    decreases m,
{
    quoted(m.0@) + seq![':'] + rendered(m.1)
}

/// The members of an object, separated by commas.
pub open spec fn rendered_members(members: Seq<(String, Json)>) -> Seq<char>
    decreases members,
{
    if members.len() == 0 {
        seq![]
    } else if members.len() == 1 {
        rendered_member(members[0])
    } else {
        rendered_members(members.drop_last()) + seq![','] + rendered_member(members.last())
    }
}


/// The value of the first member of `members` named `key`.
pub open spec fn member_value(members: Seq<(String, Json)>, key: Seq<char>) -> Option<Json>
    decreases members.len(),
{
    if members.len() == 0 {
        None
    } else if members[0].0@ == key {
        Some(members[0].1)
    } else {
        member_value(members.drop_first(), key)
    }
}

/// The member `key` of `j` when `j` is an object that has one; nothing for
/// any other value.
pub open spec fn lookup(j: Json, key: Seq<char>) -> Option<Json> {
    match j {
        Json::Object(members) => member_value(members@, key),
        _ => None,
    }
}

impl Json {
    /// The first member named `key`, when this is an object.
    fn find_member(&self, key: &str) -> (r: Option<&Json>)
        ensures
            r is Some <==> lookup(*self, key@) is Some,
            r matches Some(v) ==> *v == lookup(*self, key@)->0,
    {
        match self {
            Json::Object(members) => {
                let name = String::from_str(key);
                let mut i: usize = 0;
                assert(members@.skip(0) =~= members@);
                while i < members.len()
                    invariant
                        i <= members.len(),
                        name@ == key@,
                        *self == Json::Object(*members),
                        member_value(members@, key@) == member_value(members@.skip(i as int), key@),
                    decreases members.len() - i,
                {
                    assert(members@.skip(i as int)[0] == members@[i as int]);
                    if members[i].0 == name {
                        return Some(&members[i].1);
                    }
                    assert(members@.skip(i as int).drop_first() =~= members@.skip(i + 1));
                    i += 1;
                }
                None
            },
            _ => None,
        }
    }

    /// The member named `key`, when this is an object that has one. Of a
    /// well-formed object it is the value of the one member of that name.
    pub fn get(&self, key: &str) -> (r: Option<&Json>)
        ensures
            r is Some <==> lookup(*self, key@) is Some,
            r matches Some(v) ==> *v == lookup(*self, key@)->0,
            well_formed(*self) ==> (self matches Json::Object(ms) ==> forall|i: int|
                0 <= i < ms.len() && (#[trigger] ms@[i]).0@ == key@ ==> (r matches Some(v) && *v == ms@[i].1)),
    {
        let r = self.find_member(key);
        proof {
            if well_formed(*self) {
                if let Json::Object(ms) = self {
                    assert forall|i: int| 0 <= i < ms.len() && (#[trigger] ms@[i]).0@ == key@ implies lookup(
                        *self,
                        key@,
                    ) == Some(ms@[i].1) by {
                        law_lookup_finds_the_named_member(*ms, i);
                    }
                }
            }
        }
        r
    }
}

/// Appends `c` to `s` (`String::push`).
#[verifier::external_body]
pub(crate) fn push_char(s: &mut String, c: char)
    ensures
        final(s)@ == old(s)@.push(c),
{
    s.push(c);
}

/// `s` as a JSON string literal, written by `serde_json::to_string`.
/// The contract states serde_json's string escaping (its `ESCAPE` table and
/// `write_char_escape`): `"` and `\` are escaped, control characters below
/// U+0020 take `\b \t \n \f \r` or `\u00XX` with lower-case hex digits,
/// every other character is copied. Serialising a `str` into a `Vec` never
/// fails in serde_json, so the error arm is not taken.
#[verifier::external_body]
pub(crate) fn json_string_literal(s: &str) -> (r: String)
    ensures
        r@ == quoted(s@),
{
    match serde_json::to_string(s) {
        Ok(text) => text,
        Err(_) => String::new(),
    }
}

/// The decimal digit character for `d`.
fn digit_char(d: u32) -> (c: char)
    requires
        d < 10,
    ensures
        c == decimal_digit(d as int),
{
    if d == 0 {
        '0'
    } else if d == 1 {
        '1'
    } else if d == 2 {
        '2'
    } else if d == 3 {
        '3'
    } else if d == 4 {
        '4'
    } else if d == 5 {
        '5'
    } else if d == 6 {
        '6'
    } else if d == 7 {
        '7'
    } else if d == 8 {
        '8'
    } else {
        '9'
    }
}

/// The decimal numeral of `n`.
pub fn decimal_text(n: u32) -> (s: String)
    ensures
        s@ == decimal(n as nat),
    decreases n,
{
    let c = digit_char(n % 10);
    let mut s = if n < 10 {
        String::new()
    } else {
        decimal_text(n / 10)
    };
    push_char(&mut s, c);
    s
}

/// Appends the compact JSON text of `j` to `out`.
pub fn render_into(j: &Json, out: &mut String)
    ensures
        final(out)@ == old(out)@ + rendered(*j),
    decreases j,
{
    match j {
        Json::Null => out.append("null"),
        Json::Bool(b) => {
            if *b {
                out.append("true")
            } else {
                out.append("false")
            }
        },
        Json::Number(n) => out.append(n.as_str()),
        Json::Str(s) => {
            let lit = json_string_literal(s.as_str());
            out.append(lit.as_str());
        },
        Json::Array(items) => {
            push_char(out, '[');
            let ghost start = out@;
            let mut i: usize = 0;
            while i < items.len()
                invariant
                    i <= items.len(),
                    out@ == start + rendered_items(items@.take(i as int)),
                    *j == Json::Array(*items),
                decreases items.len() - i,
            {
                if i > 0 {
                    push_char(out, ',');
                }
                assert(decreases_to!(*j => (*j)->Array_0));
                render_into(&items[i], out);
                assert(items@.take(i + 1).drop_last() =~= items@.take(i as int));
                i += 1;
            }
            assert(items@.take(i as int) =~= items@);
            push_char(out, ']');
        },
        Json::Object(members) => {
            push_char(out, '{');
            let ghost start = out@;
            let mut i: usize = 0;
            while i < members.len()
                invariant
                    i <= members.len(),
                    out@ == start + rendered_members(members@.take(i as int)),
                    *j == Json::Object(*members),
                decreases members.len() - i,
            {
                if i > 0 {
                    push_char(out, ',');
                }
                let ghost before = out@;
                let lit = json_string_literal(members[i].0.as_str());
                out.append(lit.as_str());
                push_char(out, ':');
                assert(decreases_to!(*j => (*j)->Object_0));
                render_into(&members[i].1, out);
                assert(out@ == before + rendered_member(members@[i as int]));
                assert(members@.take(i + 1).drop_last() =~= members@.take(i as int));
                i += 1;
            }
            assert(members@.take(i as int) =~= members@);
            push_char(out, '}');
        },
    }
}

/// The compact JSON text of `j`.
pub fn render(j: &Json) -> (s: String)
    ensures
        s@ == rendered(*j),
{
    let mut s = String::new();
    render_into(j, &mut s);
    s
}

} // verus!
