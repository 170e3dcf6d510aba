//! What the command-line client prints.

use vstd::prelude::*;
use vstd::string::*;

use crate::cec::HdmiCecState;
use crate::hardware::FanControlState;
use crate::number::{decimal, decimal_of};
use crate::power::{CPUScalingGovernor, GPUPerformanceLevel, GPUPowerProfile};
use crate::text::{ascii, ascii_lower, joined, lowercase, same, texts};
use crate::wifi::{WifiBackend, WifiDebugMode, WifiPowerManagement};

verus! {

/// Whether `a` does not come behind `b` in the order of texts: code point by code point, and a
/// text before its continuations.
pub open spec fn text_le(a: Seq<char>, b: Seq<char>) -> bool
    decreases a.len(),
{
    if a.len() == 0 {
        true
    } else if b.len() == 0 {
        false
    } else if a[0] != b[0] {
        a[0] < b[0]
    } else {
        text_le(a.skip(1), b.skip(1))
    }
}

/// Whether texts are in order.
pub open spec fn in_order(v: Seq<Seq<char>>) -> bool {
    forall|i: int, j: int| 0 <= i < j < v.len() ==> text_le(#[trigger] v[i], #[trigger] v[j])
}

/// Puts strings in order.
///
/// Trusted: `itertools::Itertools::sorted` on the strings, which hands them all out in
/// ascending order. Strings are ordered by their code points.
#[verifier::external_body]
fn sorted(v: Vec<String>) -> (r: Vec<String>)
    ensures
        in_order(texts(r@)),
        texts(r@).to_multiset() == texts(v@).to_multiset(),
{
    itertools::Itertools::sorted(v.into_iter()).collect()
}

/// What is printed where the manager answers with a number that stands for nothing.
pub open spec fn unknown_value(v: Seq<char>) -> Seq<char> {
    "Got unknown value "@ + v + " from backend"@
}

/// What is printed where the manager answers with something that stands for nothing.
fn unknown(v: &str) -> (r: String)
    ensures
        r@ == unknown_value(v@),
{
    let head = joined("Got unknown value ", v);
    joined(head.as_str(), " from backend")
}

/// What is printed of the fan, by the number of its state.
pub fn fan_control_state(state: u32) -> (r: String)
    ensures
        r@ == (match FanControlState::of_number(state as nat) {
            Ok(s) => "Fan control state: "@ + s.text(),
            Err(_) => unknown_value(decimal(state as nat)),
        }),
{
    match FanControlState::try_from(state) {
        Ok(s) => joined("Fan control state: ", s.to_string().as_str()),
        Err(_) => unknown(decimal_of(state as u64).as_str()),
    }
}

/// What is printed of the processor's governor, by its name.
pub fn cpu_scaling_governor(governor: &str) -> (r: String)
    ensures
        r@ == (match CPUScalingGovernor::of_text(governor@) {
            Ok(_) => "CPU Governor: "@ + governor@,
            Err(_) => "Unknown CPU governor or unable to get type from "@ + governor@,
        }),
{
    match CPUScalingGovernor::from_str(governor) {
        Ok(_) => joined("CPU Governor: ", governor),
        Err(_) => joined("Unknown CPU governor or unable to get type from ", governor),
    }
}

/// What is printed of the power profile, given what its name stands for.
pub open spec fn power_profile_line(
    profile: Seq<char>,
    known: Result<GPUPowerProfile, Seq<char>>,
) -> Seq<char> {
    match known {
        Ok(p) => "GPU Power Profile: "@ + profile + " "@ + p.text(),
        Err(_) => "Unknown GPU power profile or unable to get type from "@ + profile,
    }
}

/// What is printed of the power profile, by its name.
pub fn gpu_power_profile(profile: &str) -> (r: String)
    ensures
        r@ == power_profile_line(
            profile@,
            GPUPowerProfile::of_lower(lowercase(profile@), profile@),
        ),
        ascii(profile@) ==> r@ == power_profile_line(
            profile@,
            GPUPowerProfile::of_lower(ascii_lower(profile@), profile@),
        ),
{
    match GPUPowerProfile::from_str(profile) {
        Ok(p) => {
            let head = joined("GPU Power Profile: ", profile);
            let head = joined(head.as_str(), " ");
            joined(head.as_str(), p.to_string().as_str())
        },
        Err(_) => joined("Unknown GPU power profile or unable to get type from ", profile),
    }
}

/// What is printed of the performance level, by its name.
pub fn gpu_performance_level(level: &str) -> (r: String)
    ensures
        r@ == (match GPUPerformanceLevel::of_text(level@) {
            Ok(l) => "GPU performance level: "@ + l.text(),
            Err(_) => unknown_value(level@),
        }),
{
    match GPUPerformanceLevel::from_str(level) {
        Ok(l) => joined("GPU performance level: ", l.to_string().as_str()),
        Err(_) => unknown(level),
    }
}

/// What is printed of the wireless backend, by its name.
pub fn wifi_backend(backend: &str) -> (r: String)
    ensures
        r@ == (match WifiBackend::of_text(backend@) {
            Ok(b) => "Wifi backend: "@ + b.text(),
            Err(_) => unknown_value(backend@),
        }),
{
    match WifiBackend::from_str(backend) {
        Ok(b) => joined("Wifi backend: ", b.to_string().as_str()),
        Err(_) => unknown(backend),
    }
}

/// What is printed of the wireless debug mode, by its number.
pub fn wifi_debug_mode(mode: u32) -> (r: String)
    ensures
        r@ == (match WifiDebugMode::of_number(mode as int) {
            Ok(m) => "Wifi debug mode: "@ + m.text(),
            Err(_) => unknown_value(decimal(mode as nat)),
        }),
{
    match WifiDebugMode::try_from(mode) {
        Ok(m) => joined("Wifi debug mode: ", m.to_string().as_str()),
        Err(_) => unknown(decimal_of(mode as u64).as_str()),
    }
}

/// What is printed of the wireless power management, by the number of its state.
pub fn wifi_power_management_state(state: u32) -> (r: String)
    ensures
        r@ == (match WifiPowerManagement::of_number(state as int) {
            Ok(s) => "Wifi power management state: "@ + s.text(),
            Err(_) => unknown_value(decimal(state as nat)),
        }),
{
    match WifiPowerManagement::try_from(state) {
        Ok(s) => joined("Wifi power management state: ", s.to_string().as_str()),
        Err(_) => unknown(decimal_of(state as u64).as_str()),
    }
}

/// What is printed of Consumer Electronics Control, by the number of its state.
pub fn hdmi_cec_state(state: u32) -> (r: String)
    ensures
        r@ == (match HdmiCecState::of_number(state as int) {
            Ok(s) => "HDMI-CEC state: "@ + s.human_text(),
            Err(_) => unknown_value(decimal(state as nat)),
        }),
{
    match HdmiCecState::try_from(state) {
        Ok(s) => joined("HDMI-CEC state: ", s.to_human_readable()),
        Err(_) => unknown(decimal_of(state as u64).as_str()),
    }
}

/// The texts, each on a line of its own behind `bullet`, behind `head`.
pub open spec fn listed(head: Seq<char>, bullet: Seq<char>, items: Seq<Seq<char>>) -> Seq<char>
    decreases items.len(),
{
    if items.len() == 0 {
        head
    } else {
        listed(head, bullet, items.drop_last()) + bullet + items.last() + "\n"@
    }
}

/// The strings, each on a line of its own behind `bullet`, behind `head`.
fn list(head: &str, bullet: &str, items: &Vec<String>) -> (r: String)
    ensures
        r@ == listed(head@, bullet@, texts(items@)),
{
    let ghost all = texts(items@);
    let mut out = head.to_owned();
    let mut i: usize = 0;
    while i < items.len()
        invariant
            i <= items.len(),
            all == texts(items@),
            out@ == listed(head@, bullet@, all.take(i as int)),
        decreases items.len() - i,
    {
        assert(all.take(i + 1).drop_last() =~= all.take(i as int));
        assert(all.take(i + 1).last() == items@[i as int]@);
        out.append(bullet);
        out.append(items[i].as_str());
        out.append("\n");
        i += 1;
    }
    assert(all.take(i as int) =~= all);
    out
}

/// What is printed of the governors that the processor can have, in the order given.
pub fn available_cpu_scaling_governors(governors: &Vec<String>) -> (r: String)
    ensures
        r@ == listed("Governors:\n\n"@, ""@, texts(governors@)),
{
    list("Governors:\n\n", "", governors)
}

/// What is printed of the power profiles that the graphics processor can have: their names in
/// order.
pub fn available_gpu_power_profiles(profiles: Vec<String>) -> (r: String)
    ensures
        exists|names: Seq<Seq<char>>| #[trigger]
            in_order(names) && names.to_multiset() == texts(profiles@).to_multiset() && r@
                == listed("Profiles:\n\n"@, "- "@, names),
{
    let names = sorted(profiles);
    let r = list("Profiles:\n\n", "- ", &names);
    assert(in_order(texts(names@)));
    r
}

/// A property of the manager: its name and its value in words.
#[derive(Debug)]
pub struct Property {
    pub name: String,
    pub value: String,
}

/// The names of properties.
pub open spec fn property_names(properties: Seq<Property>) -> Seq<Seq<char>> {
    properties.map_values(|p: Property| p.name@)
}

/// The value of the first property with a given name.
pub open spec fn value_of(properties: Seq<Property>, name: Seq<char>) -> Seq<char>
    decreases properties.len(),
{
    if properties.len() == 0 {
        seq![]
    } else if properties.first().name@ == name {
        properties.first().value@
    } else {
        value_of(properties.skip(1), name)
    }
}

/// A line for each name: the name and the value of its property.
pub open spec fn property_lines(properties: Seq<Property>, names: Seq<Seq<char>>) -> Seq<char>
    decreases names.len(),
{
    if names.len() == 0 {
        seq![]
    } else {
        property_lines(properties, names.drop_last()) + names.last() + ": "@ + value_of(
            properties,
            names.last(),
        ) + "\n"@
    }
}

/// The value of the first property with the name `name`.
fn find_value(properties: &Vec<Property>, name: &str) -> (r: String)
    ensures
        r@ == value_of(properties@, name@),
{
    let mut i: usize = 0;
    assert(properties@.skip(0) =~= properties@);
    while i < properties.len()
        invariant
            i <= properties.len(),
            value_of(properties@.skip(i as int), name@) == value_of(properties@, name@),
        decreases properties.len() - i,
    {
        assert(properties@.skip(i as int).first() == properties@[i as int]);
        assert(properties@.skip(i as int).skip(1) =~= properties@.skip(i + 1));
        if same(properties[i].name.as_str(), name) {
            return properties[i].value.clone();
        }
        i += 1;
    }
    let r = String::new();
    assert(r@ =~= seq![]);
    r
}

/// What is printed of all properties: a line for each, in the order of their names.
pub fn all_properties(properties: &Vec<Property>) -> (r: String)
    ensures
        exists|names: Seq<Seq<char>>| #[trigger]
            in_order(names) && names.to_multiset() == property_names(
                properties@,
            ).to_multiset() && r@ == property_lines(properties@, names),
{
    let mut keys: Vec<String> = Vec::new();
    let mut i: usize = 0;
    while i < properties.len()
        invariant
            i <= properties.len(),
            texts(keys@) == property_names(properties@.take(i as int)),
        decreases properties.len() - i,
    {
        let ghost before = texts(keys@);
        keys.push(properties[i].name.clone());
        i += 1;
        assert(texts(keys@) =~= before.push(properties@[i - 1].name@));
        assert(property_names(properties@.take(i as int)) =~= before.push(
            properties@[i - 1].name@,
        ));
    }
    assert(properties@.take(i as int) =~= properties@);
    let names = sorted(keys);
    let ghost all = texts(names@);
    let mut out = String::new();
    let mut k: usize = 0;
    assert(out@ =~= seq![]);
    while k < names.len()
        invariant
            k <= names.len(),
            all == texts(names@),
            out@ == property_lines(properties@, all.take(k as int)),
        decreases names.len() - k,
    {
        assert(all.take(k + 1).drop_last() =~= all.take(k as int));
        assert(all.take(k + 1).last() == names@[k as int]@);
        let value = find_value(properties, names[k].as_str());
        out.append(names[k].as_str());
        out.append(": ");
        out.append(value.as_str());
        out.append("\n");
        k += 1;
    }
    assert(all.take(k as int) =~= all);
    assert(in_order(all));
    out
}

proof fn lemma_text_total(a: Seq<char>, b: Seq<char>)
    ensures
        text_le(a, b) || text_le(b, a),
    decreases a.len(),
{
    if a.len() > 0 && b.len() > 0 && a[0] == b[0] {
        lemma_text_total(a.skip(1), b.skip(1));
    }
}

proof fn lemma_text_transitive(a: Seq<char>, b: Seq<char>, c: Seq<char>)
    requires
        text_le(a, b),
        text_le(b, c),
    ensures
        text_le(a, c),
    decreases a.len(),
{
    if a.len() > 0 && b.len() > 0 && c.len() > 0 && a[0] == b[0] && b[0] == c[0] {
        lemma_text_transitive(a.skip(1), b.skip(1), c.skip(1));
    }
}

proof fn lemma_text_antisymmetric(a: Seq<char>, b: Seq<char>)
    requires
        text_le(a, b),
        text_le(b, a),
    ensures
        a == b,
    decreases a.len(),
{
    if a.len() > 0 && b.len() > 0 {
        lemma_text_antisymmetric(a.skip(1), b.skip(1));
        assert(a =~= seq![a[0]] + a.skip(1));
        assert(b =~= seq![b[0]] + b.skip(1));
    } else {
        assert(a =~= b);
    }
}

/// There is one order only in which texts can be printed: what is printed of profiles and of
/// properties does not depend on the order in which they are given.
pub proof fn law_order_unique(a: Seq<Seq<char>>, b: Seq<Seq<char>>)
    requires
        in_order(a),
        in_order(b),
        a.to_multiset() == b.to_multiset(),
    ensures
        a == b,
{
    let le = |a: Seq<char>, b: Seq<char>| text_le(a, b);
    assert forall|x: Seq<char>| #[trigger] le(x, x) by {
        lemma_text_total(x, x);
    }
    assert forall|x: Seq<char>, y: Seq<char>| #[trigger] le(x, y) && #[trigger] le(y, x) implies x
        == y by {
        lemma_text_antisymmetric(x, y);
    }
    assert forall|x: Seq<char>, y: Seq<char>, z: Seq<char>| #[trigger] le(x, y) && #[trigger] le(
        y,
        z,
    ) implies le(x, z) by {
        lemma_text_transitive(x, y, z);
    }
    assert forall|x: Seq<char>, y: Seq<char>| #[trigger] le(x, y) || le(y, x) by {
        lemma_text_total(x, y);
    }
    assert(vstd::relations::total_ordering(le));
    assert(vstd::relations::sorted_by(a, le));
    assert(vstd::relations::sorted_by(b, le));
    vstd::seq_lib::lemma_sorted_unique(a, b, le);
}

/// Texts are ordered by the first character in which they differ, and a text comes before its
/// continuations.
pub proof fn law_text_order(common: Seq<char>, x: char, y: char, a: Seq<char>, b: Seq<char>)
    ensures
        x != y ==> (text_le(common + seq![x] + a, common + seq![y] + b) <==> x < y),
        text_le(common, common + a),
        !text_le(common + seq![x] + a, common),
    decreases common.len(),
{
    let p = common + seq![x] + a;
    let q = common + seq![y] + b;
    if common.len() > 0 {
        let rest = common.skip(1);
        law_text_order(rest, x, y, a, b);
        assert(p.skip(1) =~= rest + seq![x] + a);
        assert(q.skip(1) =~= rest + seq![y] + b);
        assert((common + a).skip(1) =~= rest + a);
        assert(p[0] == common[0] && q[0] == common[0] && (common + a)[0] == common[0]);
    } else {
        assert(p[0] == x);
        assert(q[0] == y);
    }
}

/// A list is printed item by item, each on a line of its own behind its bullet.
pub proof fn law_listed_lines(
    head: Seq<char>,
    bullet: Seq<char>,
    a: Seq<Seq<char>>,
    b: Seq<Seq<char>>,
    item: Seq<char>,
)
    ensures
        listed(head, bullet, a + b) == listed(listed(head, bullet, a), bullet, b),
        listed(head, bullet, seq![item]) == head + bullet + item + "\n"@,
        listed(head, bullet, Seq::empty()) == head,
    decreases b.len(),
{
    let one = seq![item];
    assert(one.drop_last() =~= Seq::<Seq<char>>::empty());
    reveal_with_fuel(listed, 2);
    if b.len() == 0 {
        assert(a + b =~= a);
    } else {
        assert((a + b).drop_last() =~= a + b.drop_last());
        assert((a + b).last() == b.last());
        law_listed_lines(head, bullet, a, b.drop_last(), item);
    }
}

/// Properties are printed line by line, each name with the value of the first property of that
/// name.
pub proof fn law_property_lines(
    properties: Seq<Property>,
    a: Seq<Seq<char>>,
    b: Seq<Seq<char>>,
    i: int,
)
    requires
        0 <= i < properties.len(),
        forall|j: int| 0 <= j < i ==> (#[trigger] properties[j]).name@ != properties[i].name@,
    ensures
        property_lines(properties, a + b) == property_lines(properties, a) + property_lines(
            properties,
            b,
        ),
        property_lines(properties, seq![properties[i].name@]) == properties[i].name@ + ": "@
            + properties[i].value@ + "\n"@,
{
    lemma_property_parts(properties, a, b);
    lemma_value_of(properties, i);
    let one = seq![properties[i].name@];
    assert(one.drop_last() =~= Seq::<Seq<char>>::empty());
    reveal_with_fuel(property_lines, 2);
    assert(property_lines(properties, one) =~= properties[i].name@ + ": "@ + properties[i].value@
        + "\n"@);
}

proof fn lemma_property_parts(properties: Seq<Property>, a: Seq<Seq<char>>, b: Seq<Seq<char>>)
    ensures
        property_lines(properties, a + b) == property_lines(properties, a) + property_lines(
            properties,
            b,
        ),
    decreases b.len(),
{
    if b.len() == 0 {
        assert(a + b =~= a);
        assert(property_lines(properties, a) + property_lines(properties, b) =~= property_lines(
            properties,
            a,
        ));
    } else {
        assert((a + b).drop_last() =~= a + b.drop_last());
        assert((a + b).last() == b.last());
        lemma_property_parts(properties, a, b.drop_last());
        assert(property_lines(properties, a + b) =~= property_lines(properties, a)
            + property_lines(properties, b));
    }
}

proof fn lemma_value_of(properties: Seq<Property>, i: int)
    requires
        0 <= i < properties.len(),
        forall|j: int| 0 <= j < i ==> (#[trigger] properties[j]).name@ != properties[i].name@,
    ensures
        value_of(properties, properties[i].name@) == properties[i].value@,
    decreases i,
{
    if i > 0 {
        assert(properties[0].name@ != properties[i].name@);
        let rest = properties.skip(1);
        assert(rest[i - 1] == properties[i]);
        assert forall|j: int| 0 <= j < i - 1 implies (#[trigger] rest[j]).name@ != rest[i
            - 1].name@ by {
            assert(rest[j] == properties[j + 1]);
        }
        lemma_value_of(rest, i - 1);
    }
}

/// What is printed of a power profile holds the name as it came and, where it is known, the name
/// of the profile; an unknown one is told as such. So are unknown values.
pub proof fn law_printed_lines(profile: Seq<char>, known: GPUPowerProfile, e: Seq<char>)
    ensures
        power_profile_line(profile, Ok(known)) == "GPU Power Profile: "@ + profile + " "@
            + known.text(),
        power_profile_line(profile, Err(e)) == "Unknown GPU power profile or unable to get type from "@
            + profile,
        unknown_value(profile) == "Got unknown value "@ + profile + " from backend"@,
{
}

} // verus!
