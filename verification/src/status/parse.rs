//! Reading what the system says of itself.

use vstd::prelude::*;
use vstd::string::*;

use crate::conf;
use crate::text;

verus! {

/// `text` without the whitespace around it, unless that leaves nothing.
pub open spec fn nonblank(text: Option<Seq<char>>) -> Option<Seq<char>> {
    match text {
        Some(text) => if text::trimmed(text).len() > 0 {
            Some(text::trimmed(text))
        } else {
            None
        },
        None => None,
    }
}

/// `text` without the whitespace around it, unless that leaves nothing.
pub fn read_trimmed(text: Option<&str>) -> (r: Option<String>)
    ensures
        text::opt_view(r) == nonblank(conf::opt(text)),
{
    match text {
        Some(text) => {
            let trimmed: String = text::trim(text);
            if trimmed.as_str().is_empty() {
                None
            } else {
                Some(trimmed)
            }
        },
        None => None,
    }
}

/// The contents of each pair of a list.
pub open spec fn pair_views(list: Seq<(String, String)>) -> Seq<(Seq<char>, Seq<char>)> {
    list.map_values(|pair: (String, String)| (pair.0@, pair.1@))
}

/// The assignments among `lines`, in order.
pub open spec fn assignments(lines: Seq<Seq<char>>) -> Seq<(Seq<char>, Seq<char>)>
    decreases lines.len(),
{
    if lines.len() == 0 {
        Seq::empty()
    } else {
        let before = assignments(lines.drop_last());
        match text::split_once_of(lines.last(), '=') {
            Some((key, value)) => before.push((text::trimmed(key), text::trimmed(value))),
            None => before,
        }
    }
}

/// Reads `/etc/robot/image-version`, preserving the order the build wrote its keys in.
pub fn image_version(text: Option<&str>) -> (r: Vec<(String, String)>)
    ensures
        pair_views(r@) == assignments(text::lines_of(conf::text_of(conf::opt(text)))),
{
    proof {
        reveal_strlit("");
        assert(text is None ==> conf::text_of(conf::opt(text)) =~= ""@);
    }
    let lines: Vec<String> = match text {
        Some(text) => text::lines(text),
        None => text::lines(""),
    };
    let ghost views = text::views(lines@);
    let mut out: Vec<(String, String)> = Vec::new();
    let mut i: usize = 0;
    assert(views.take(0) =~= Seq::<Seq<char>>::empty());
    assert(pair_views(out@) =~= Seq::<(Seq<char>, Seq<char>)>::empty());
    while i < lines.len()
        invariant
            i <= lines@.len(),
            views == text::views(lines@),
            pair_views(out@) == assignments(views.take(i as int)),
        decreases lines@.len() - i,
    {
        assert(views.take(i + 1).drop_last() =~= views.take(i as int));
        assert(views.take(i + 1).last() == lines@[i as int]@);
        let ghost before = pair_views(out@);
        if let Some((key, value)) = text::split_once(lines[i].as_str(), '=') {
            let key: String = text::trim(key.as_str());
            let value: String = text::trim(value.as_str());
            let ghost added = (key@, value@);
            out.push((key, value));
            assert(pair_views(out@) =~= before.push(added));
        }
        i = i + 1;
    }
    assert(views.take(i as int) =~= views);
    out
}

/// What an `Interface` holds.
#[verifier::ext_equal]
pub struct InterfaceView {
    pub name: Seq<char>,
    pub addresses: Seq<Seq<char>>,
}

#[derive(Debug, Clone, PartialEq, Eq)]
pub struct Interface {
    pub name: String,
    pub addresses: Vec<String>,
}

impl View for Interface {
    type V = InterfaceView;

    open spec fn view(&self) -> InterfaceView {
        InterfaceView { name: self.name@, addresses: text::views(self.addresses@) }
    }
}

/// The contents of each interface of a list.
pub open spec fn interface_views(list: Seq<Interface>) -> Seq<InterfaceView> {
    list.map_values(|interface: Interface| interface@)
}

/// The index of the first of `words` that equals `word`, or their number if none does.
pub open spec fn word_position(words: Seq<Seq<char>>, word: Seq<char>) -> nat
    decreases words.len(),
{
    if words.len() == 0 || words[0] == word {
        0
    } else {
        1 + word_position(words.drop_first(), word)
    }
}

/// The interface and the address on a line of `ip -o -4 addr show`: the second field, and the one
/// that follows `inet`.
pub open spec fn address_on(line: Seq<char>) -> Option<(Seq<char>, Seq<char>)> {
    let words = text::words_of(line);
    if words.len() < 2 {
        None
    } else {
        let rest = words.skip(2);
        let at = word_position(rest, "inet"@);
        if at + 1 < rest.len() {
            Some((words[1], rest[at as int + 1]))
        } else {
            None
        }
    }
}

/// Whether one of `interfaces` is called `name`.
pub open spec fn has_interface(interfaces: Seq<InterfaceView>, name: Seq<char>) -> bool {
    exists|i: int| 0 <= i < interfaces.len() && #[trigger] interfaces[i].name == name
}

/// `interfaces`, with `address` added to the one of that name, or to a new one.
pub open spec fn with_address(
    interfaces: Seq<InterfaceView>,
    name: Seq<char>,
    address: Seq<char>,
) -> Seq<InterfaceView> {
    if has_interface(interfaces, name) {
        interfaces.map_values(
            |interface: InterfaceView|
                if interface.name == name {
                    InterfaceView { addresses: interface.addresses.push(address), ..interface }
                } else {
                    interface
                },
        )
    } else {
        interfaces.push(InterfaceView { name, addresses: seq![address] })
    }
}

/// The interfaces on `lines`, each with its addresses.
pub open spec fn interfaces_on(lines: Seq<Seq<char>>) -> Seq<InterfaceView>
    decreases lines.len(),
{
    if lines.len() == 0 {
        Seq::empty()
    } else {
        let before = interfaces_on(lines.drop_last());
        match address_on(lines.last()) {
            Some((name, address)) => with_address(before, name, address),
            None => before,
        }
    }
}

/// No two of `interfaces` have the same name.
pub open spec fn distinct_interfaces(interfaces: Seq<InterfaceView>) -> bool {
    forall|i: int, j: int|
        0 <= i < j < interfaces.len() ==> #[trigger] interfaces[i].name
            != #[trigger] interfaces[j].name
}

/// Each interface is listed once, whatever the number of its addresses.
pub proof fn interfaces_are_listed_once(lines: Seq<Seq<char>>)
    ensures
        distinct_interfaces(interfaces_on(lines)),
    decreases lines.len(),
{
    if lines.len() > 0 {
        interfaces_are_listed_once(lines.drop_last());
        let before = interfaces_on(lines.drop_last());
        let after = interfaces_on(lines);
        assert(forall|i: int|
            0 <= i < before.len() ==> (#[trigger] after[i]).name == before[i].name);
        if after.len() > before.len() {
            assert forall|i: int| 0 <= i < before.len() implies (#[trigger] after[i]).name
                != after.last().name by {
                assert(before[i].name == after[i].name);
            }
        }
    }
}

pub(crate) proof fn lemma_word_position(words: Seq<Seq<char>>, word: Seq<char>, at: int)
    requires
        0 <= at <= words.len(),
        at < words.len() ==> words[at] == word,
        forall|i: int| 0 <= i < at ==> words[i] != word,
    ensures
        word_position(words, word) == at,
    decreases words.len(),
{
    if at > 0 {
        let rest = words.drop_first();
        assert forall|i: int| 0 <= i < at - 1 implies rest[i] != word by {
            assert(rest[i] == words[i + 1]);
        }
        lemma_word_position(rest, word, at - 1);
    }
}

fn parse_address(line: &str) -> (r: Option<(String, String)>)
    ensures
        r is Some <==> address_on(line@) is Some,
        r matches Some(found) ==> address_on(line@) == Some((found.0@, found.1@)),
{
    let words: Vec<String> = text::split_whitespace(line);
    let ghost views = text::views(words@);
    if words.len() < 2 {
        return None;
    }
    let ghost rest = views.skip(2);
    let mut at: usize = 2;
    while at < words.len() && !text::same(words[at].as_str(), "inet")
        invariant
            2 <= at <= words@.len(),
            views == text::views(words@),
            rest == views.skip(2),
            forall|j: int| 0 <= j < at - 2 ==> rest[j] != "inet"@,
        decreases words@.len() - at,
    {
        assert(rest[at - 2] == words@[at as int]@);
        at = at + 1;
    }
    proof {
        if at < words@.len() {
            assert(rest[at - 2] == words@[at as int]@);
        }
        lemma_word_position(rest, "inet"@, at - 2);
    }
    if at < words.len() && at + 1 < words.len() {
        assert(views[1] == words@[1]@);
        assert(rest[at - 1] == words@[at + 1]@);
        Some((words[1].clone(), words[at + 1].clone()))
    } else {
        None
    }
}

/// The interfaces in the output of `ip -o -4 addr show`, each with its addresses.
pub fn parse_ip_addresses(text: &str) -> (r: Vec<Interface>)
    ensures
        interface_views(r@) == interfaces_on(text::lines_of(text@)),
{
    let lines: Vec<String> = text::lines(text);
    let ghost views = text::views(lines@);
    let mut out: Vec<Interface> = Vec::new();
    let mut i: usize = 0;
    assert(views.take(0) =~= Seq::<Seq<char>>::empty());
    assert(interface_views(out@) =~= Seq::<InterfaceView>::empty());
    while i < lines.len()
        invariant
            i <= lines@.len(),
            views == text::views(lines@),
            interface_views(out@) == interfaces_on(views.take(i as int)),
        decreases lines@.len() - i,
    {
        let ghost before = interface_views(out@);
        proof {
            interfaces_are_listed_once(views.take(i as int));
            assert(views.take(i + 1).drop_last() =~= views.take(i as int));
            assert(views.take(i + 1).last() == lines@[i as int]@);
        }
        if let Some((name, address)) = parse_address(lines[i].as_str()) {
            let mut at: usize = 0;
            while at < out.len() && !text::same(out[at].name.as_str(), name.as_str())
                invariant
                    at <= out@.len(),
                    before == interface_views(out@),
                    forall|j: int| 0 <= j < at ==> #[trigger] before[j].name != name@,
                decreases out@.len() - at,
            {
                assert(before[at as int] == out@[at as int]@);
                at = at + 1;
            }
            let ghost added = address@;
            if at < out.len() {
                assert(before[at as int] == out@[at as int]@);
                assert(before[at as int].name == name@);
                let mut addresses: Vec<String> = out[at].addresses.clone();
                proof {
                    assert(text::views(addresses@) =~= before[at as int].addresses);
                    text::lemma_views_push(addresses@, address);
                }
                addresses.push(address);
                out.set(at, Interface { name: name.clone(), addresses });
            } else {
                let mut addresses: Vec<String> = Vec::new();
                addresses.push(address);
                assert(text::views(addresses@) =~= seq![added]);
                out.push(Interface { name: name.clone(), addresses });
            }
            assert(interface_views(out@) =~= with_address(before, name@, added));
        }
        i = i + 1;
    }
    assert(views.take(i as int) =~= views);
    out
}

/// The first of `lines` that gives a default route.
pub open spec fn default_route_on(lines: Seq<Seq<char>>) -> Option<Seq<char>>
    decreases lines.len(),
{
    if lines.len() == 0 {
        None
    } else if text::has_prefix(text::trimmed(lines[0]), "default "@) {
        Some(text::trimmed(lines[0]))
    } else {
        default_route_on(lines.drop_first())
    }
}

/// The default route in the output of `ip route show default`.
pub fn parse_default_route(text: &str) -> (r: Option<String>)
    ensures
        text::opt_view(r) == default_route_on(text::lines_of(text@)),
{
    let lines: Vec<String> = text::lines(text);
    let ghost views = text::views(lines@);
    let mut i: usize = 0;
    assert(views.skip(0) =~= views);
    while i < lines.len()
        invariant
            i <= lines@.len(),
            views == text::views(lines@),
            views == text::lines_of(text@),
            default_route_on(views) == default_route_on(views.skip(i as int)),
        decreases lines@.len() - i,
    {
        assert(views.skip(i as int)[0] == lines@[i as int]@);
        assert(views.skip(i as int).drop_first() =~= views.skip(i + 1));
        let line: String = text::trim(lines[i].as_str());
        if text::starts_with(line.as_str(), "default ") {
            return Some(line);
        }
        i = i + 1;
    }
    None
}

/// What follows `prefix` on the first of `words` that starts with it.
pub open spec fn word_after(words: Seq<Seq<char>>, prefix: Seq<char>) -> Option<Seq<char>>
    decreases words.len(),
{
    if words.len() == 0 {
        None
    } else {
        match text::after_prefix(words[0], prefix) {
            Some(rest) => Some(rest),
            None => word_after(words.drop_first(), prefix),
        }
    }
}

/// The slot that the kernel command line names: an empty name is none.
pub open spec fn rauc_slot_of(cmdline: Seq<char>) -> Option<Seq<char>> {
    match word_after(text::words_of(cmdline), "rauc.slot="@) {
        Some(slot) => if slot.len() > 0 {
            Some(slot)
        } else {
            None
        },
        None => None,
    }
}

/// Extracts `rauc.slot=<bootname>` from the kernel command line.
///
/// The command line is authoritative for "what actually booted" in a way nothing in userspace
/// is: it was fixed by the bootloader before any of this ran, so it cannot have been changed by
/// an update that happened since.
pub fn parse_rauc_slot(cmdline: &str) -> (r: Option<String>)
    ensures
        text::opt_view(r) == rauc_slot_of(cmdline@),
{
    let words: Vec<String> = text::split_whitespace(cmdline);
    let ghost views = text::views(words@);
    let mut i: usize = 0;
    assert(views.skip(0) =~= views);
    while i < words.len()
        invariant
            i <= words@.len(),
            views == text::views(words@),
            views == text::words_of(cmdline@),
            word_after(views, "rauc.slot="@) == word_after(views.skip(i as int), "rauc.slot="@),
        decreases words@.len() - i,
    {
        assert(views.skip(i as int)[0] == words@[i as int]@);
        assert(views.skip(i as int).drop_first() =~= views.skip(i + 1));
        if let Some(slot) = text::strip_prefix(words[i].as_str(), "rauc.slot=") {
            return if slot.as_str().is_empty() {
                None
            } else {
                Some(slot)
            };
        }
        i = i + 1;
    }
    None
}

/// The first word of each of `lines` that is a unit's name: a word with a dot in it.
pub open spec fn unit_names(lines: Seq<Seq<char>>) -> Seq<Seq<char>>
    decreases lines.len(),
{
    if lines.len() == 0 {
        Seq::empty()
    } else {
        let before = unit_names(lines.drop_last());
        let words = text::words_of(lines.last());
        if words.len() > 0 && words[0].contains('.') {
            before.push(words[0])
        } else {
            before
        }
    }
}

/// The units in the output of `systemctl list-units`.
pub fn parse_failed_units(text: &str) -> (r: Vec<String>)
    ensures
        text::views(r@) == unit_names(text::lines_of(text@)),
{
    broadcast use text::lemma_views_push;

    let lines: Vec<String> = text::lines(text);
    let ghost views = text::views(lines@);
    let mut out: Vec<String> = Vec::new();
    let mut i: usize = 0;
    assert(views.take(0) =~= Seq::<Seq<char>>::empty());
    assert(text::views(out@) =~= Seq::<Seq<char>>::empty());
    while i < lines.len()
        invariant
            i <= lines@.len(),
            views == text::views(lines@),
            text::views(out@) == unit_names(views.take(i as int)),
        decreases lines@.len() - i,
    {
        assert(views.take(i + 1).drop_last() =~= views.take(i as int));
        assert(views.take(i + 1).last() == lines@[i as int]@);
        let words: Vec<String> = text::split_whitespace(lines[i].as_str());
        if words.len() > 0 {
            assert(text::views(words@)[0] == words@[0]@);
            if text::contains_char(words[0].as_str(), '.') {
                out.push(words[0].clone());
            }
        }
        i = i + 1;
    }
    assert(views.take(i as int) =~= views);
    out
}

} // verus!
