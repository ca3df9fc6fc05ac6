//! The device registry: one smart plug per configured address, with the
//! label under which its metrics are published.

use vstd::prelude::*;
use vstd::string::*;
use crate::text::{
    chars_of, contains, find_char, is_substring, lemma_position_is_first, matches_at, position,
};

verus! {

/// Port the metrics endpoint listens on when none is configured.
pub const DEFAULT_SERVER_PORT: u16 = 9001;

/// Seconds after which a request to a device is given up.
pub const API_TIMEOUT_SECS: u64 = 10;

/// Separator between address and label in a mapping entry.
pub const MAPPING_SEPARATOR: char = ':';

/// Process configuration: the addresses of the plugs, the port to serve on,
/// and optional `address:label` entries.
#[derive(Clone, Debug)]
pub struct Args {
    pub ip_addrs: Vec<String>,
    pub server_port: u16,
    pub hostname_ip_mapping: Vec<String>,
}

/// One smart plug: the URL of its status call and the label its metrics carry.
#[derive(Clone, Debug)]
pub struct ShellySmartPlug {
    pub url: String,
    pub alias: String,
}

/// A plug as a pair of character sequences.
pub struct PlugView {
    pub url: Seq<char>,
    pub alias: Seq<char>,
}

impl View for ShellySmartPlug {
    type V = PlugView;

    open spec fn view(&self) -> PlugView {
        PlugView { url: self.url@, alias: self.alias@ }
    }
}

impl ShellySmartPlug {
    /// A plug is well formed when its label is not empty.
    pub open spec fn well_formed(&self) -> bool {
        self.alias@.len() > 0
    }

    /// Whether the label is not empty.
    pub fn is_well_formed(&self) -> (ok: bool)
        ensures
            ok == self.well_formed(),
    {
        !self.alias.as_str().is_empty()
    }
}

/// The character sequences of a list of strings.
pub open spec fn texts(strings: Seq<String>) -> Seq<Seq<char>> {
    strings.map_values(|s: String| s@)
}

/// An entry holds the separator.
pub open spec fn has_separator(entry: Seq<char>) -> bool {
    position(entry, MAPPING_SEPARATOR, 0) < entry.len()
}

/// The address that an entry with a separator is written for: what stands
/// before its first separator.
pub open spec fn mapped_address(entry: Seq<char>) -> Seq<char> {
    entry.subrange(0, position(entry, MAPPING_SEPARATOR, 0))
}

/// The label that an entry with a separator gives: what stands between its
/// first separator and the next one, or the end of the entry.
pub open spec fn mapped_alias(entry: Seq<char>) -> Seq<char> {
    let start = position(entry, MAPPING_SEPARATOR, 0) + 1;
    entry.subrange(start, position(entry, MAPPING_SEPARATOR, start))
}

/// An entry is usable when it holds the separator and gives a label that is
/// not empty.
pub open spec fn is_usable(entry: Seq<char>) -> bool {
    has_separator(entry) && mapped_alias(entry).len() > 0
}

/// An entry concerns the plug at `ip` when it is written for exactly that
/// address. An entry without a separator names no address of its own: it
/// concerns every plug whose address occurs in it.
pub open spec fn concerns(entry: Seq<char>, ip: Seq<char>) -> bool {
    if has_separator(entry) {
        mapped_address(entry) == ip
    } else {
        is_substring(ip, entry)
    }
}

/// Index of the first entry at or after `from` that concerns the plug at
/// `ip`, or `mappings.len()` when none does.
pub open spec fn first_match(ip: Seq<char>, mappings: Seq<Seq<char>>, from: int) -> int
    decreases mappings.len() - from,
{
    if from < 0 || from >= mappings.len() {
        mappings.len() as int
    } else if concerns(mappings[from], ip) {
        from
    } else {
        first_match(ip, mappings, from + 1)
    }
}

/// The label of the plug at `ip`: that of the first entry that concerns it,
/// if that entry is usable, and the address itself otherwise.
pub open spec fn alias_for(ip: Seq<char>, mappings: Seq<Seq<char>>) -> Seq<char> {
    let k = first_match(ip, mappings, 0);
    if k < mappings.len() && is_usable(mappings[k]) {
        mapped_alias(mappings[k])
    } else {
        ip
    }
}

/// The entry that is passed over for the plug at `ip`: the first one that
/// concerns it, when it is not usable.
pub open spec fn ignored_entry(ip: Seq<char>, mappings: Seq<Seq<char>>) -> Option<Seq<char>> {
    let k = first_match(ip, mappings, 0);
    if k < mappings.len() && !is_usable(mappings[k]) {
        Some(mappings[k])
    } else {
        None
    }
}

/// The entries passed over for a list of addresses, one per address that
/// falls on an unusable entry, in the order of the addresses.
pub open spec fn ignored_for(ips: Seq<Seq<char>>, mappings: Seq<Seq<char>>) -> Seq<Seq<char>>
    decreases ips.len(),
{
    if ips.len() == 0 {
        Seq::empty()
    } else {
        let before = ignored_for(ips.drop_last(), mappings);
        match ignored_entry(ips.last(), mappings) {
            Some(entry) => before.push(entry),
            None => before,
        }
    }
}

/// The status call of the plug at `ip`.
pub open spec fn endpoint_for(ip: Seq<char>) -> Seq<char> {
    "http://"@ + ip + "/rpc/Switch.GetStatus?id=0"@
}

/// The plug configured for `ip`.
pub open spec fn plug_for(ip: Seq<char>, mappings: Seq<Seq<char>>) -> PlugView {
    PlugView { url: endpoint_for(ip), alias: alias_for(ip, mappings) }
}

/// `first_match` names the first entry that concerns the plug.
pub proof fn lemma_first_match_is_first(ip: Seq<char>, mappings: Seq<Seq<char>>, from: int)
    requires
        0 <= from <= mappings.len(),
    ensures
        from <= first_match(ip, mappings, from) <= mappings.len(),
        first_match(ip, mappings, from) < mappings.len() ==> concerns(
            mappings[first_match(ip, mappings, from)],
            ip,
        ),
        forall|j: int|
            from <= j < first_match(ip, mappings, from) ==> !concerns(#[trigger] mappings[j], ip),
    decreases mappings.len() - from,
{
    if from < mappings.len() && !concerns(mappings[from], ip) {
        lemma_first_match_is_first(ip, mappings, from + 1);
    }
}

/// How a plug gets its label. Where no entry concerns it, the label is the
/// address. Where the first entry that concerns it is not usable, the label
/// is the address too, and that entry is passed over. Where that entry is
/// usable, the label is the one it gives.
pub proof fn lemma_alias_rules(ip: Seq<char>, mappings: Seq<Seq<char>>)
    ensures
        ({
            let k = first_match(ip, mappings, 0);
            &&& 0 <= k <= mappings.len()
            &&& k == mappings.len() ==> alias_for(ip, mappings) == ip && ignored_entry(
                ip,
                mappings,
            ) is None
            &&& k < mappings.len() && !is_usable(mappings[k]) ==> alias_for(ip, mappings) == ip
                && ignored_entry(ip, mappings) == Some(mappings[k])
            &&& k < mappings.len() && is_usable(mappings[k]) ==> alias_for(ip, mappings)
                == mapped_alias(mappings[k]) && ignored_entry(ip, mappings) is None
        }),
{
    lemma_first_match_is_first(ip, mappings, 0);
}

/// An entry written for another address changes nothing: the label of a
/// plug is the same with and without it.
pub proof fn lemma_entry_for_another_address(
    ip: Seq<char>,
    before: Seq<Seq<char>>,
    entry: Seq<char>,
    after: Seq<Seq<char>>,
)
    requires
        has_separator(entry),
        mapped_address(entry) != ip,
    ensures
        alias_for(ip, before + seq![entry] + after) == alias_for(ip, before + after),
        ignored_entry(ip, before + seq![entry] + after) == ignored_entry(ip, before + after),
{
    let with = before + seq![entry] + after;
    let without = before + after;
    lemma_first_match_is_first(ip, with, 0);
    lemma_first_match_is_first(ip, without, 0);
    let k = first_match(ip, with, 0);
    let m = first_match(ip, without, 0);
    let n = before.len() as int;
    assert forall|j: int| 0 <= j < with.len() implies with[j] == if j < n {
        without[j]
    } else if j == n {
        entry
    } else {
        without[j - 1]
    } by {}
    if k < n {
        // The deciding entry stands before the added one.
        if m < k {
            assert(concerns(with[m], ip));
        }
    } else {
        assert forall|j: int| 0 <= j < n implies !concerns(#[trigger] without[j], ip) by {
            assert(with[j] == without[j]);
        }
        if k < with.len() {
            // The deciding entry stands behind the added one.
            if m < k - 1 {
                assert(concerns(with[m + 1], ip));
            }
        } else if m < without.len() {
            assert(concerns(with[m + 1], ip));
        }
    }
}

/// A label is never empty unless the address is: every plug with an address
/// that is not empty is well formed.
pub proof fn lemma_label_is_not_empty(ip: Seq<char>, mappings: Seq<Seq<char>>)
    ensures
        ip.len() > 0 ==> plug_for(ip, mappings).alias.len() > 0,
{
}

/// Whether an entry concerns the plug at `ip`.
pub fn entry_concerns(entry: &Vec<char>, ip: &Vec<char>) -> (yes: bool)
    ensures
        yes == concerns(entry@, ip@),
{
    let first = find_char(entry, MAPPING_SEPARATOR, 0);
    if first < entry.len() {
        ip.len() == first && matches_at(entry, ip, 0)
    } else {
        contains(entry, ip)
    }
}

/// Whether an entry is usable.
pub fn entry_is_usable(entry: &Vec<char>) -> (yes: bool)
    ensures
        yes == is_usable(entry@),
{
    let first = find_char(entry, MAPPING_SEPARATOR, 0);
    if first < entry.len() {
        let next = find_char(entry, MAPPING_SEPARATOR, first + 1);
        proof {
            lemma_position_is_first(entry@, MAPPING_SEPARATOR, first + 1);
        }
        next > first + 1
    } else {
        false
    }
}

/// Index of the first entry that concerns the plug at `ip`; the number of
/// entries when there is none.
pub fn find_mapping(ip: &String, mappings: &Vec<String>) -> (k: usize)
    ensures
        k == first_match(ip@, texts(mappings@), 0),
{
    let address = chars_of(ip.as_str());
    let mut k: usize = 0;
    while k < mappings.len()
        invariant
            k <= mappings.len(),
            address@ == ip@,
            first_match(ip@, texts(mappings@), k as int) == first_match(ip@, texts(mappings@), 0),
        decreases mappings.len() - k,
    {
        let entry = chars_of(mappings[k].as_str());
        if entry_concerns(&entry, &address) {
            return k;
        }
        k += 1;
    }
    k
}

/// The label of the plug at `ip`. It is empty only where the address is.
pub fn resolve_alias(ip: &String, mappings: &Vec<String>) -> (alias: String)
    ensures
        alias@ == alias_for(ip@, texts(mappings@)),
        ip@.len() > 0 ==> alias@.len() > 0,
{
    let k = find_mapping(ip, mappings);
    if k < mappings.len() {
        let entry = mappings[k].as_str();
        let chars = chars_of(entry);
        if entry_is_usable(&chars) {
            let first = find_char(&chars, MAPPING_SEPARATOR, 0);
            let next = find_char(&chars, MAPPING_SEPARATOR, first + 1);
            proof {
                lemma_position_is_first(chars@, MAPPING_SEPARATOR, first + 1);
            }
            return String::from_str(entry.substring_char(first + 1, next));
        }
    }
    ip.clone()
}

/// Index of the entry that is passed over for the plug at `ip`, if any.
pub fn find_ignored(ip: &String, mappings: &Vec<String>) -> (found: Option<usize>)
    ensures
        match found {
            Some(k) => k < mappings@.len() && ignored_entry(ip@, texts(mappings@)) == Some(
                mappings@[k as int]@,
            ),
            None => ignored_entry(ip@, texts(mappings@)) is None,
        },
{
    let k = find_mapping(ip, mappings);
    if k < mappings.len() {
        let chars = chars_of(mappings[k].as_str());
        if !entry_is_usable(&chars) {
            return Some(k);
        }
    }
    None
}

/// The status call of the plug at `ip`.
pub fn endpoint_url(ip: &String) -> (url: String)
    ensures
        url@ == endpoint_for(ip@),
{
    let mut url = String::from_str("http://");
    url.append(ip.as_str());
    url.append("/rpc/Switch.GetStatus?id=0");
    url
}

/// Builds the registry: one plug per address, in the order of the addresses.
/// Every plug whose address is not empty is well formed.
pub fn load_plugs(cli_args: &Args) -> (plugs: Vec<ShellySmartPlug>)
    ensures
        plugs@.len() == cli_args.ip_addrs@.len(),
        forall|i: int|
            0 <= i < plugs@.len() ==> (#[trigger] plugs@[i])@ == plug_for(
                cli_args.ip_addrs@[i]@,
                texts(cli_args.hostname_ip_mapping@),
            ),
        forall|i: int|
            0 <= i < plugs@.len() && cli_args.ip_addrs@[i]@.len() > 0 ==> (
            #[trigger] plugs@[i]).well_formed(),
{
    let mut plugs: Vec<ShellySmartPlug> = Vec::new();
    let mut i: usize = 0;
    while i < cli_args.ip_addrs.len()
        invariant
            i <= cli_args.ip_addrs.len(),
            plugs@.len() == i,
            forall|j: int|
                0 <= j < i ==> (#[trigger] plugs@[j])@ == plug_for(
                    cli_args.ip_addrs@[j]@,
                    texts(cli_args.hostname_ip_mapping@),
                ),
            forall|j: int|
                0 <= j < i && cli_args.ip_addrs@[j]@.len() > 0 ==> (
                #[trigger] plugs@[j]).well_formed(),
        decreases cli_args.ip_addrs.len() - i,
    {
        let ip = &cli_args.ip_addrs[i];
        let alias = resolve_alias(ip, &cli_args.hostname_ip_mapping);
        plugs.push(ShellySmartPlug { url: endpoint_url(ip), alias });
        i += 1;
    }
    plugs
}

/// The entries that `load_plugs` passes over because they are not usable:
/// one per address whose first entry is such, in the order of the addresses.
/// The caller reports them to the operator.
pub fn ignored_mappings(cli_args: &Args) -> (ignored: Vec<String>)
    ensures
        texts(ignored@) == ignored_for(
            texts(cli_args.ip_addrs@),
            texts(cli_args.hostname_ip_mapping@),
        ),
{
    let ghost ips = texts(cli_args.ip_addrs@);
    let ghost mappings = texts(cli_args.hostname_ip_mapping@);
    let mut ignored: Vec<String> = Vec::new();
    let mut i: usize = 0;
    while i < cli_args.ip_addrs.len()
        invariant
            i <= cli_args.ip_addrs.len(),
            ips == texts(cli_args.ip_addrs@),
            mappings == texts(cli_args.hostname_ip_mapping@),
            texts(ignored@) == ignored_for(ips.take(i as int), mappings),
        decreases cli_args.ip_addrs.len() - i,
    {
        let found = find_ignored(&cli_args.ip_addrs[i], &cli_args.hostname_ip_mapping);
        proof {
            assert(ips.take(i + 1).drop_last() =~= ips.take(i as int));
        }
        if let Some(k) = found {
            let entry = cli_args.hostname_ip_mapping[k].clone();
            ignored.push(entry);
        }
        i += 1;
    }
    assert(ips.take(i as int) =~= ips);
    ignored
}

} // verus!
