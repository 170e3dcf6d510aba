//! Units of systemd and their names on the bus.

use vstd::prelude::*;
use vstd::string::*;

use crate::error::{outcome, Failure};
use crate::text::{chars_of, joined, same};

verus! {

/// Whether the unit file of a unit is enabled.
#[derive(Clone, Copy, Debug, PartialEq, Eq, Structural)]
pub enum EnableState {
    Disabled,
    Enabled,
    Masked,
    Static,
}

impl EnableState {
    /// The state's name.
    pub open spec fn text(self) -> Seq<char> {
        match self {
            EnableState::Disabled => "disabled"@,
            EnableState::Enabled => "enabled"@,
            EnableState::Masked => "masked"@,
            EnableState::Static => "static"@,
        }
    }

    /// The state with a given name.
    pub open spec fn of_text(s: Seq<char>) -> Result<EnableState, Seq<char>> {
        if s == "disabled"@ {
            Ok(EnableState::Disabled)
        } else if s == "enabled"@ {
            Ok(EnableState::Enabled)
        } else if s == "masked"@ {
            Ok(EnableState::Masked)
        } else if s == "static"@ {
            Ok(EnableState::Static)
        } else {
            Err("Matching variant not found"@)
        }
    }

    /// The state with the name `input`.
    pub fn from_str(input: &str) -> (r: Result<EnableState, Failure>)
        ensures
            outcome(r) == EnableState::of_text(input@),
    {
        if same(input, "disabled") {
            Ok(EnableState::Disabled)
        } else if same(input, "enabled") {
            Ok(EnableState::Enabled)
        } else if same(input, "masked") {
            Ok(EnableState::Masked)
        } else if same(input, "static") {
            Ok(EnableState::Static)
        } else {
            Err(Failure::new("Matching variant not found"))
        }
    }

    /// The state's name.
    pub fn to_string(&self) -> (r: String)
        ensures
            r@ == self.text(),
    {
        let s = match self {
            EnableState::Disabled => "disabled",
            EnableState::Enabled => "enabled",
            EnableState::Masked => "masked",
            EnableState::Static => "static",
        };
        s.to_owned()
    }
}

/// A state's name leads back to the state.
pub proof fn law_enable_state_round_trip(state: EnableState)
    ensures
        EnableState::of_text(state.text()) == Ok::<EnableState, Seq<char>>(state),
{
    reveal_strlit("disabled");
    reveal_strlit("enabled");
    reveal_strlit("masked");
    reveal_strlit("static");
    assert("disabled"@[0] == 'd');
    assert("enabled"@[0] == 'e');
    assert("masked"@[0] == 'm');
    assert("static"@[0] == 's');
}

/// Whether `c` is an ASCII letter or digit.
pub open spec fn alphanumeric(c: char) -> bool {
    'a' <= c <= 'z' || 'A' <= c <= 'Z' || '0' <= c <= '9'
}

/// The character of a hexadecimal digit below sixteen.
pub open spec fn hex_digit(d: int) -> char {
    if d < 10 {
        ('0' as int + d) as char
    } else {
        ('a' as int + (d - 10)) as char
    }
}

/// `n` in hexadecimal, without leading zeros.
pub open spec fn hex(n: nat) -> Seq<char>
    decreases n,
{
    if n < 16 {
        seq![hex_digit(n as int)]
    } else {
        hex(n / 16).push(hex_digit((n % 16) as int))
    }
}

/// `n` in hexadecimal with at least two digits.
pub open spec fn hex2(n: nat) -> Seq<char> {
    if n < 16 {
        seq!['0'] + hex(n)
    } else {
        hex(n)
    }
}

/// How a character stands in an object path: a letter or a digit as itself, another one as an
/// underscore and its code point in hexadecimal.
pub open spec fn escape_char(c: char) -> Seq<char> {
    if alphanumeric(c) {
        seq![c]
    } else {
        seq!['_'] + hex2(c as nat)
    }
}

/// How a name stands in an object path.
pub open spec fn escaped(name: Seq<char>) -> Seq<char>
    decreases name.len(),
{
    if name.len() == 0 {
        seq![]
    } else {
        escaped(name.drop_last()) + escape_char(name.last())
    }
}

/// The object path of the unit `name`.
pub open spec fn unit_path(name: Seq<char>) -> Seq<char> {
    "/org/freedesktop/systemd1/unit/"@ + escaped(name)
}

/// Whether `c` may stand in a segment of an object path.
pub open spec fn path_char(c: char) -> bool {
    alphanumeric(c) || c == '_'
}

/// Whether `s` is an object path: segments of letters, digits and underscores, none of them
/// empty, each behind a slash; or a single slash.
pub open spec fn valid_object_path(s: Seq<char>) -> bool {
    &&& s.len() > 0
    &&& s[0] == '/'
    &&& s.len() > 1 ==> s.last() != '/'
    &&& forall|k: int| 0 <= k < s.len() ==> s[k] == '/' || path_char(#[trigger] s[k])
    &&& forall|k: int| 1 <= k < s.len() && #[trigger] s[k] == '/' ==> s[k - 1] != '/'
}

/// What the bus library says of a text that is no object path.
pub uninterp spec fn object_path_complaint(path: Seq<char>) -> Seq<char>;

/// Whether the bus takes `path` as an object path, or else what it says of it.
///
/// Trusted: `<zbus::zvariant::ObjectPath as TryFrom<&str>>::try_from`. It accepts a text that
/// is not empty, starts with a slash, does not end in one unless it is that slash alone, has
/// no two slashes in a row, and holds nothing but ASCII letters, digits, underscores and
/// slashes; every other text is an error, whose words depend on the text alone.
#[verifier::external_body]
pub(crate) fn check_object_path(path: &str) -> (r: Result<(), String>)
    ensures
        r is Ok == valid_object_path(path@),
        r is Err ==> r->Err_0@ == object_path_complaint(path@),
{
    match zbus::zvariant::ObjectPath::try_from(path) {
        Ok(_) => Ok(()),
        Err(e) => Err(e.to_string()),
    }
}

/// The character of a hexadecimal digit below sixteen.
fn hex_digit_of(d: u32) -> (r: char)
    requires
        d < 16,
    ensures
        r == hex_digit(d as int),
{
    if d < 10 {
        (48 + d as u8) as char
    } else {
        (87 + d as u8) as char
    }
}

/// `n` in hexadecimal.
fn hex_of(n: u32) -> (r: String)
    ensures
        r@ == hex(n as nat),
    decreases n,
{
    if n < 16 {
        let mut s = String::new();
        s.push(hex_digit_of(n));
        assert(s@ =~= hex(n as nat));
        s
    } else {
        let mut s = hex_of(n / 16);
        s.push(hex_digit_of(n % 16));
        s
    }
}

/// The code point of `c`.
fn code_point(c: char) -> (r: u32)
    ensures
        r as nat == c as nat,
{
    c as u32
}

/// How the name of a unit stands in its object path.
pub fn escape(name: &str) -> (r: String)
    ensures
        r@ == escaped(name@),
{
    let v = chars_of(name);
    let mut parts = String::new();
    let mut i: usize = 0;
    assert(name@.take(0) =~= Seq::<char>::empty());
    while i < v.len()
        invariant
            i <= v.len(),
            v@ == name@,
            parts@ == escaped(name@.take(i as int)),
        decreases v.len() - i,
    {
        let c = v[i];
        let ghost before = parts@;
        assert(name@.take(i + 1).drop_last() =~= name@.take(i as int));
        if ('a' <= c && c <= 'z') || ('A' <= c && c <= 'Z') || ('0' <= c && c <= '9') {
            parts.push(c);
            assert(parts@ =~= before + escape_char(c));
        } else {
            parts.push('_');
            let point: u32 = code_point(c);
            if point < 16 {
                parts.push('0');
            }
            let code = hex_of(point);
            parts.append(code.as_str());
            assert(parts@ =~= before + escape_char(c));
        }
        i += 1;
    }
    assert(name@.take(i as int) =~= name@);
    parts
}

/// A unit of systemd, by its name and its object path.
pub struct SystemdUnit {
    pub name: String,
    pub path: String,
}

impl SystemdUnit {
    /// The unit `name`. Only the empty name is refused.
    pub fn new(name: &str) -> (r: Result<SystemdUnit, Failure>)
        ensures
            match r {
                Ok(unit) => name@.len() > 0 && unit.name@ == name@ && unit.path@ == unit_path(
                    name@,
                ),
                Err(e) => name@.len() == 0 && e@ == object_path_complaint(unit_path(name@)),
            },
    {
        let part = escape(name);
        let path = joined("/org/freedesktop/systemd1/unit/", part.as_str());
        proof {
            lemma_unit_path_valid(name@);
        }
        match check_object_path(path.as_str()) {
            Ok(_) => Ok(SystemdUnit { name: name.to_owned(), path }),
            Err(message) => Err(Failure { message }),
        }
    }

    /// Whether the unit runs, by its active state.
    pub fn active(state: &str) -> (r: bool)
        ensures
            r == (state@ == "active"@),
    {
        same(state, "active")
    }

    /// Whether the unit file is enabled, by its state.
    pub fn enabled(state: &str) -> (r: Result<EnableState, Failure>)
        ensures
            outcome(r) == EnableState::of_text(state@),
    {
        EnableState::from_str(state)
    }

    /// Whether a request to enable, disable, mask or unmask the unit changed anything, by the
    /// changes that systemd lists.
    pub fn changed(changes: &Vec<(String, String, String)>) -> (r: bool)
        ensures
            r == (changes@.len() > 0),
    {
        changes.len() > 0
    }
}

proof fn lemma_hex_chars(n: nat)
    ensures
        hex(n).len() > 0,
        forall|k: int| 0 <= k < hex(n).len() ==> alphanumeric(#[trigger] hex(n)[k]),
    decreases n,
{
    if n >= 16 {
        lemma_hex_chars(n / 16);
    }
}

proof fn lemma_escape_char(c: char)
    ensures
        escape_char(c).len() > 0,
        forall|k: int| 0 <= k < escape_char(c).len() ==> path_char(#[trigger] escape_char(c)[k]),
{
    lemma_hex_chars(c as nat);
    if !alphanumeric(c) {
        let h = hex2(c as nat);
        assert forall|k: int| 0 <= k < h.len() implies alphanumeric(#[trigger] h[k]) by {
            if (c as nat) < 16 && k > 0 {
                assert(h[k] == hex(c as nat)[k - 1]);
            }
        }
        let e = escape_char(c);
        assert forall|k: int| 0 <= k < e.len() implies path_char(#[trigger] e[k]) by {
            if k > 0 {
                assert(e[k] == h[k - 1]);
            }
        }
    }
}

/// An escaped name can stand in an object path, whatever the name holds.
pub proof fn law_escape_path_chars(name: Seq<char>)
    ensures
        forall|k: int| 0 <= k < escaped(name).len() ==> path_char(#[trigger] escaped(name)[k]),
        escaped(name).len() == 0 <==> name.len() == 0,
    decreases name.len(),
{
    if name.len() > 0 {
        law_escape_path_chars(name.drop_last());
        lemma_escape_char(name.last());
    }
}

/// The path of a unit is an object path, unless the name is empty.
proof fn lemma_unit_path_valid(name: Seq<char>)
    ensures
        valid_object_path(unit_path(name)) <==> name.len() > 0,
{
    law_escape_path_chars(name);
    reveal_strlit("/org/freedesktop/systemd1/unit/");
    let head = "/org/freedesktop/systemd1/unit/"@;
    let s = unit_path(name);
    if name.len() > 0 {
        assert forall|k: int| 0 <= k < s.len() implies s[k] == '/' || path_char(
            #[trigger] s[k],
        ) by {
            if k >= head.len() {
                assert(s[k] == escaped(name)[k - head.len()]);
            }
        }
        assert forall|k: int| 1 <= k < s.len() && #[trigger] s[k] == '/' implies s[k - 1]
            != '/' by {
            if k >= head.len() {
                assert(s[k] == escaped(name)[k - head.len()]);
            }
        }
        assert(s.last() == escaped(name).last());
    } else {
        assert(s =~= head);
    }
}

/// The first character of a name is escaped first.
proof fn lemma_escaped_front(name: Seq<char>)
    requires
        name.len() > 0,
    ensures
        escaped(name) == escape_char(name.first()) + escaped(name.skip(1)),
    decreases name.len(),
{
    if name.len() == 1 {
        assert(name.drop_last() =~= Seq::<char>::empty());
        assert(name.skip(1) =~= Seq::<char>::empty());
        assert(escaped(name) =~= escape_char(name.first()) + escaped(name.skip(1)));
    } else {
        let init = name.drop_last();
        lemma_escaped_front(init);
        assert(name.skip(1).drop_last() =~= init.skip(1));
        assert(name.skip(1).last() == name.last());
        assert(escaped(name) =~= escape_char(name.first()) + escaped(name.skip(1)));
    }
}

/// Below 256, an escape is an underscore and two digits that tell the character.
proof fn lemma_escape_char_short(c: char)
    requires
        c <= '\u{ff}',
        !alphanumeric(c),
    ensures
        0 <= c as int <= 255,
        escape_char(c) == seq!['_', hex_digit(c as int / 16), hex_digit(c as int % 16)],
{
    let n = c as nat;
    reveal_with_fuel(hex, 2);
    assert(escape_char(c) =~= seq!['_', hex_digit(n as int / 16), hex_digit(n as int % 16)]);
}

/// Different digits have different characters.
proof fn lemma_hex_digit_injective(a: int, b: int)
    requires
        0 <= a < 16,
        0 <= b < 16,
        hex_digit(a) == hex_digit(b),
    ensures
        a == b,
{
    assert(hex_digit(a) as int == if a < 10 { 48 + a } else { 87 + a });
    assert(hex_digit(b) as int == if b < 10 { 48 + b } else { 87 + b });
}

/// Different names of characters below 256 have different escaped forms.
pub proof fn law_escape_injective(a: Seq<char>, b: Seq<char>)
    requires
        forall|k: int| 0 <= k < a.len() ==> a[k] <= '\u{ff}',
        forall|k: int| 0 <= k < b.len() ==> b[k] <= '\u{ff}',
        escaped(a) == escaped(b),
    ensures
        a == b,
    decreases a.len(),
{
    law_escape_path_chars(a);
    law_escape_path_chars(b);
    if a.len() == 0 {
        assert(a =~= b);
    } else {
        lemma_escaped_front(a);
        lemma_escaped_front(b);
        let x = a.first();
        let y = b.first();
        let e = escaped(a);
        assert(e[0] == escape_char(x)[0]);
        assert(e[0] == escape_char(y)[0]);
        if !alphanumeric(x) {
            assert(!alphanumeric(y));
            lemma_escape_char_short(x);
            lemma_escape_char_short(y);
            assert(e[1] == hex_digit(x as int / 16));
            assert(e[1] == hex_digit(y as int / 16));
            assert(e[2] == hex_digit(x as int % 16));
            assert(e[2] == hex_digit(y as int % 16));
            lemma_hex_digit_injective(x as int / 16, y as int / 16);
            lemma_hex_digit_injective(x as int % 16, y as int % 16);
            assert(x as int == y as int);
        }
        assert(x == y);
        let n = escape_char(x).len() as int;
        assert(escaped(a.skip(1)) =~= e.skip(n));
        assert(escaped(b.skip(1)) =~= e.skip(n));
        assert forall|k: int| 0 <= k < a.skip(1).len() implies a.skip(1)[k] <= '\u{ff}' by {
            assert(a.skip(1)[k] == a[k + 1]);
        }
        assert forall|k: int| 0 <= k < b.skip(1).len() implies b.skip(1)[k] <= '\u{ff}' by {
            assert(b.skip(1)[k] == b[k + 1]);
        }
        law_escape_injective(a.skip(1), b.skip(1));
        assert(a =~= seq![x] + a.skip(1));
        assert(b =~= seq![y] + b.skip(1));
    }
}

/// A state is known by its name alone.
pub proof fn law_enable_state_names(state: EnableState, s: Seq<char>)
    ensures
        EnableState::of_text(s) == Ok::<EnableState, Seq<char>>(state) <==> s == state.text(),
{
    law_enable_state_round_trip(state);
}

/// The value of a hexadecimal text.
pub open spec fn hex_value(s: Seq<char>) -> nat
    decreases s.len(),
{
    if s.len() == 0 {
        0
    } else {
        hex_value(s.drop_last()) * 16 + (if s.last() <= '9' {
            (s.last() as int - 48) as nat
        } else {
            (s.last() as int - 87) as nat
        })
    }
}

/// A name is escaped character by character: letters and digits stay, and any other character
/// becomes an underscore and at least two digits, without needless zeros, whose value is its
/// code point.
pub proof fn law_escape_each(a: Seq<char>, b: Seq<char>, c: char)
    ensures
        escaped(a + b) == escaped(a) + escaped(b),
        'a' <= c <= 'z' || 'A' <= c <= 'Z' || '0' <= c <= '9' ==> escaped(seq![c]) == seq![c],
        !('a' <= c <= 'z' || 'A' <= c <= 'Z' || '0' <= c <= '9') ==> {
            let e = escaped(seq![c]);
            &&& e.len() >= 3
            &&& e[0] == '_'
            &&& hex_value(e.skip(1)) == c as nat
            &&& e.len() > 3 ==> e[1] != '0'
            &&& forall|k: int|
                1 <= k < e.len() ==> '0' <= #[trigger] e[k] <= '9' || 'a' <= e[k] <= 'f'
        },
{
    lemma_escaped_parts(a, b);
    let one = seq![c];
    assert(one.drop_last() =~= Seq::<char>::empty());
    assert(escaped(one) =~= escape_char(c)) by {
        reveal_with_fuel(escaped, 2);
    }
    if !alphanumeric(c) {
        let e = escape_char(c);
        let h = hex2(c as nat);
        lemma_hex_text(c as nat);
        assert(e.skip(1) =~= h);
        assert forall|k: int| 1 <= k < e.len() implies '0' <= #[trigger] e[k] <= '9' || 'a' <= e[k]
            <= 'f' by {
            assert(e[k] == h[k - 1]);
        }
        assert(e[1] == h[0]);
    }
}

proof fn lemma_escaped_parts(a: Seq<char>, b: Seq<char>)
    ensures
        escaped(a + b) == escaped(a) + escaped(b),
    decreases b.len(),
{
    if b.len() == 0 {
        assert(a + b =~= a);
        assert(escaped(a) + escaped(b) =~= escaped(a));
    } else {
        assert((a + b).drop_last() =~= a + b.drop_last());
        assert((a + b).last() == b.last());
        lemma_escaped_parts(a, b.drop_last());
        assert(escaped(a + b) =~= escaped(a) + escaped(b));
    }
}

proof fn lemma_hex_text(n: nat)
    ensures
        hex_value(hex2(n)) == n,
        hex2(n).len() >= 2,
        hex2(n).len() > 2 ==> hex2(n)[0] != '0',
        forall|k: int|
            0 <= k < hex2(n).len() ==> '0' <= #[trigger] hex2(n)[k] <= '9' || 'a' <= hex2(n)[k]
                <= 'f',
{
    lemma_hex_value(n);
    if n < 16 {
        let s = hex2(n);
        assert(s =~= seq!['0', hex_digit(n as int)]);
        assert(s.drop_last() =~= seq!['0']);
        assert(seq!['0'].drop_last() =~= Seq::<char>::empty());
        reveal_with_fuel(hex_value, 3);
    } else {
        lemma_hex_value(n / 16);
    }
}

proof fn lemma_hex_value(n: nat)
    ensures
        hex(n).len() > 0,
        hex_value(hex(n)) == n,
        n > 0 ==> hex(n)[0] != '0',
        n >= 16 ==> hex(n).len() >= 2,
        forall|k: int|
            0 <= k < hex(n).len() ==> '0' <= #[trigger] hex(n)[k] <= '9' || 'a' <= hex(n)[k]
                <= 'f',
    decreases n,
{
    let d = (n % 16) as int;
    assert(hex_digit(d) as int == if d < 10 {
        48 + d
    } else {
        87 + d
    });
    let s = hex(n);
    if n < 16 {
        assert(s.drop_last() =~= Seq::<char>::empty());
        reveal_with_fuel(hex_value, 2);
    } else {
        lemma_hex_value(n / 16);
        assert(s.drop_last() =~= hex(n / 16));
        assert(n / 16 * 16 + d == n);
        assert(s[0] == hex(n / 16)[0]);
        assert forall|k: int| 0 <= k < s.len() implies '0' <= #[trigger] s[k] <= '9' || 'a' <= s[k]
            <= 'f' by {
            if k < s.len() - 1 {
                assert(s[k] == hex(n / 16)[k]);
            }
        }
    }
}

/// The path of a unit is its escaped name below the directory of the units.
pub proof fn law_unit_path(name: Seq<char>)
    ensures
        unit_path(name).len() == 31 + escaped(name).len(),
        unit_path(name).skip(31) == escaped(name),
        unit_path(name).take(31) == "/org/freedesktop/systemd1/unit/"@,
{
    reveal_strlit("/org/freedesktop/systemd1/unit/");
    assert(unit_path(name).skip(31) =~= escaped(name));
    assert(unit_path(name).take(31) =~= "/org/freedesktop/systemd1/unit/"@);
}

/// Whatever is none of the four words for a state is refused with the same words.
pub proof fn law_enable_state_refused(s: Seq<char>)
    ensures
        EnableState::of_text(s) is Err ==> EnableState::of_text(s)->Err_0
            == "Matching variant not found"@,
{
}

} // verus!
