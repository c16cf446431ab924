//! Human-readable names for devices: `AA:BB:CC:DD:EE:FF=Sauna`.

use crate::mac_address::{
    address_bytes, address_number, address_text, is_address_text, MacAddress,
};
use std::collections::HashMap;
use vstd::prelude::*;
use vstd::string::{StrSliceExecFns, StringExecFns};

verus! {

broadcast use vstd::std_specs::hash::group_hash_axioms;

/// A name for a device.
#[derive(Debug, Clone)]
pub struct Alias {
    /// The device's address.
    pub address: MacAddress,
    /// The name, such as `Sauna`.
    pub name: String,
}

/// An alias as the bytes of the address and the characters of the name.
pub struct AliasView {
    pub address: Seq<u8>,
    pub name: Seq<char>,
}

impl View for Alias {
    type V = AliasView;

    open spec fn view(&self) -> AliasView {
        AliasView { address: self.address@, name: self.name@ }
    }
}

/// Whether `i` is where the first `c` of `s` stands.
pub open spec fn is_first(s: Seq<char>, c: char, i: int) -> bool {
    0 <= i < s.len() && s[i] == c && forall|j: int| 0 <= j < i ==> s[j] != c
}

/// Whether `r` is what the text `s` gives as an alias.
///
/// The text is cut at its first equals sign. Before it stands the address,
/// after it the name, which may hold anything, further equals signs too.
/// A text without an equals sign and a text whose first part is no address
/// are errors.
pub open spec fn is_alias_of(r: Result<Alias, String>, s: Seq<char>) -> bool {
    match r {
        Ok(a) => exists|i: int|
            {
                &&& #[trigger] is_first(s, '=', i)
                &&& is_address_text(s.take(i))
                &&& a@.address == address_bytes(s.take(i))
                &&& a@.name == s.skip(i + 1)
            },
        Err(m) => {
            ||| !s.contains('=') && m@ == "invalid alias: expected format MAC=NAME"@
            ||| exists|i: int|
                {
                    &&& #[trigger] is_first(s, '=', i)
                    &&& !is_address_text(s.take(i))
                    &&& m@ == "invalid MAC address: "@ + s.take(i)
                }
        },
    }
}

/// Reads an alias of the form `MAC=NAME`.
pub fn parse_alias(src: &str) -> (r: Result<Alias, String>)
    ensures
        is_alias_of(r, src@),
{
    let n = src.unicode_len();
    let mut i: usize = 0;
    while i < n
        invariant
            i <= n,
            n == src@.len(),
            forall|j: int| 0 <= j < i ==> src@[j] != '=',
        decreases n - i,
    {
        if src.get_char(i) == '=' {
            assert(is_first(src@, '=', i as int));
            let address_text = src.substring_char(0, i);
            let name_text = src.substring_char(i + 1, n);
            assert(address_text@ == src@.take(i as int));
            assert(name_text@ == src@.skip(i + 1));
            return match MacAddress::parse(address_text) {
                Ok(address) => Ok(Alias { address, name: name_text.to_owned() }),
                Err(_) => Err("invalid MAC address: ".to_owned().concat(address_text)),
            };
        }
        i += 1;
    }
    assert(!src@.contains('='));
    Err("invalid alias: expected format MAC=NAME".to_owned())
}

/// The names that a list of aliases gives, by the number of the address.
/// Of two aliases for one device the later counts.
pub open spec fn alias_names(aliases: Seq<Alias>) -> Map<u64, Seq<char>>
    decreases aliases.len(),
{
    if aliases.len() == 0 {
        Map::empty()
    } else {
        alias_names(aliases.drop_last()).insert(
            address_number(aliases.last()@.address) as u64,
            aliases.last()@.name,
        )
    }
}

/// The names of devices, to look up by address.
#[derive(Debug, Clone)]
pub struct AliasMap {
    names: HashMap<u64, String>,
}

impl AliasMap {
    /// The names, by the number of the address.
    pub closed spec fn view(&self) -> Map<u64, Seq<char>> {
        Map::new(|k: u64| self.names@.contains_key(k), |k: u64| self.names@[k]@)
    }

    /// No names at all.
    pub fn new() -> (m: AliasMap)
        ensures
            m@ == Map::<u64, Seq<char>>::empty(),
    {
        let m = AliasMap { names: HashMap::new() };
        assert(m@ =~= Map::<u64, Seq<char>>::empty());
        m
    }

    /// Gives the device `address` the name `name`, in place of any it had.
    pub fn insert(&mut self, address: MacAddress, name: String)
        ensures
            final(self)@ == old(self)@.insert(address_number(address@) as u64, name@),
    {
        let key = address.to_u64();
        self.names.insert(key, name);
        assert(self@ =~= old(self)@.insert(key, name@));
    }

    /// The name of the device, if it has one.
    pub fn get(&self, address: &MacAddress) -> (r: Option<&String>)
        ensures
            match r {
                Some(name) => self@.contains_key(address_number(address@) as u64) && name@
                    == self@[address_number(address@) as u64],
                None => !self@.contains_key(address_number(address@) as u64),
            },
    {
        let key = address.to_u64();
        self.names.get(&key)
    }

    /// How many devices have a name.
    pub fn len(&self) -> (n: usize)
        ensures
            n == self@.dom().len(),
    {
        assert(self@.dom() =~= self.names@.dom());
        self.names.len()
    }
}

/// Puts a list of aliases into a map from address to name.
pub fn to_map(aliases: &[Alias]) -> (map: AliasMap)
    ensures
        map@ == alias_names(aliases@),
{
    let mut map = AliasMap::new();
    let mut i: usize = 0;
    while i < aliases.len()
        invariant
            i <= aliases@.len(),
            map@ == alias_names(aliases@.take(i as int)),
        decreases aliases@.len() - i,
    {
        let a = &aliases[i];
        proof {
            assert(aliases@.take(i + 1).drop_last() == aliases@.take(i as int));
            assert(aliases@.take(i + 1).last() == *a);
        }
        map.insert(a.address, a.name.clone());
        i += 1;
    }
    assert(aliases@.take(aliases@.len() as int) == aliases@);
    map
}

/// The name under which a device is written: its alias, or, without one,
/// its address in canonical text.
pub open spec fn resolved_name(address: Seq<u8>, names: Map<u64, Seq<char>>) -> Seq<char> {
    if names.contains_key(address_number(address) as u64) {
        names[address_number(address) as u64]
    } else {
        address_text(address)
    }
}

/// The name under which the device is written.
pub fn resolve_name(mac: &MacAddress, aliases: &AliasMap) -> (name: String)
    ensures
        name@ == resolved_name(mac@, aliases@),
{
    match aliases.get(mac) {
        Some(name) => name.clone(),
        None => mac.to_string(),
    }
}

} // verus!
