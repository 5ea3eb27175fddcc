//! IP allow and deny lists of CIDR networks.
use vstd::prelude::*;

verus! {

/// A CIDR network: an address and how many leading bits are fixed.
/// IPv4 addresses occupy the low 32 bits.
#[derive(Debug, Clone, Copy, PartialEq, Eq, Structural)]
pub struct IpNetwork {
    pub is_v6: bool,
    pub addr: u128,
    pub prefix_len: u8,
}

/// An IP address; IPv4 addresses occupy the low 32 bits.
#[derive(Debug, Clone, Copy, PartialEq, Eq, Structural)]
pub struct IpAddress {
    pub is_v6: bool,
    pub bits: u128,
}

/// The number of address bits of the family.
pub open spec fn address_width(is_v6: bool) -> u128 {
    if is_v6 {
        128
    } else {
        32
    }
}

/// A network value as a parser produces it: prefix within the family's
/// width, and an IPv4 address within 32 bits.
pub open spec fn well_formed_network(n: IpNetwork) -> bool {
    &&& n.prefix_len <= address_width(n.is_v6)
    &&& !n.is_v6 ==> n.addr < 0x1_0000_0000
}

/// What `ipnet::IpNet::from_str` makes of a text (`None` when it refuses it).
pub uninterp spec fn ipnet_parse(s: Seq<char>) -> Option<IpNetwork>;

/// `ipnet::IpNet::from_str`, with the network taken apart into plain values.
/// The result depends on the text alone; the source's `Ipv4Net::new` and
/// `Ipv6Net::new` refuse prefixes longer than 32 and 128 bits.
#[verifier::external_body]
fn parse_network(s: &str) -> (r: Option<IpNetwork>)
    ensures
        r == ipnet_parse(s@),
        r matches Some(n) ==> well_formed_network(n),
{
    match s.parse::<ipnet::IpNet>() {
        Ok(ipnet::IpNet::V4(n)) => Some(IpNetwork {
            is_v6: false,
            addr: u128::from(u32::from(n.addr())),
            prefix_len: n.prefix_len(),
        }),
        Ok(ipnet::IpNet::V6(n)) => Some(IpNetwork {
            is_v6: true,
            addr: u128::from(n.addr()),
            prefix_len: n.prefix_len(),
        }),
        Err(_) => None,
    }
}

/// A network contains an address of its family whose leading `prefix_len`
/// bits are the network's (what `IpNet::contains` checks as
/// `network() <= ip <= broadcast()`).
pub open spec fn network_contains(n: IpNetwork, a: IpAddress) -> bool {
    &&& n.is_v6 == a.is_v6
    &&& n.prefix_len == 0 || (a.bits >> ((address_width(n.is_v6) - n.prefix_len) as u128)) == (n.addr >> ((
    address_width(n.is_v6) - n.prefix_len) as u128))
}

/// What containment means: with a positive prefix `p` of a family `w` bits
/// wide, an address of the same family is in the network exactly when its
/// leading `p` bits (the address divided by `2^(w - p)`) equal the network's;
/// with prefix 0 every address of the family is in it, and no address of the
/// other family is. So, for example, every `10.x.y.z` is in `10.0.0.0/8`.
pub proof fn lemma_contains_by_leading_bits(n: IpNetwork, a: IpAddress)
    requires
        well_formed_network(n),
    ensures
        n.is_v6 != a.is_v6 ==> !network_contains(n, a),
        n.is_v6 == a.is_v6 && n.prefix_len == 0 ==> network_contains(n, a),
        n.is_v6 == a.is_v6 && n.prefix_len > 0 ==> (network_contains(n, a) <==> a.bits as nat / vstd::arithmetic::power2::pow2(
            (address_width(n.is_v6) - n.prefix_len) as nat,
        ) == n.addr as nat / vstd::arithmetic::power2::pow2((address_width(n.is_v6) - n.prefix_len) as nat)),
{
    if n.prefix_len > 0 {
        let shift = (address_width(n.is_v6) - n.prefix_len) as u128;
        assert(shift < 128);
        vstd::bits::lemma_u128_shr_is_div(a.bits, shift);
        vstd::bits::lemma_u128_shr_is_div(n.addr, shift);
    }
}

/// Every host of a network is in it: for a positive prefix `p` of a family
/// `w` bits wide, the address made of the network's leading `p` bits
/// followed by any host part `h < 2^(w - p)` is contained.
pub proof fn lemma_hosts_contained(n: IpNetwork, h: nat)
    requires
        well_formed_network(n),
        n.prefix_len > 0,
        h < vstd::arithmetic::power2::pow2((address_width(n.is_v6) - n.prefix_len) as nat),
    ensures
        ({
            let d = vstd::arithmetic::power2::pow2((address_width(n.is_v6) - n.prefix_len) as nat);
            let bits = (n.addr as nat / d) * d + h;
            bits <= u128::MAX ==> network_contains(n, IpAddress { is_v6: n.is_v6, bits: bits as u128 })
        }),
{
    let d = vstd::arithmetic::power2::pow2((address_width(n.is_v6) - n.prefix_len) as nat);
    let q = n.addr as nat / d;
    let bits = q * d + h;
    vstd::arithmetic::power2::lemma_pow2_pos((address_width(n.is_v6) - n.prefix_len) as nat);
    if bits <= u128::MAX {
        let a = IpAddress { is_v6: n.is_v6, bits: bits as u128 };
        lemma_contains_by_leading_bits(n, a);
        vstd::arithmetic::div_mod::lemma_fundamental_div_mod_converse(bits as int, d as int, q as int, h as int);
    }
}

pub fn contains(n: &IpNetwork, a: &IpAddress) -> (r: bool)
    requires
        well_formed_network(*n),
    ensures
        r == network_contains(*n, *a),
{
    if n.is_v6 != a.is_v6 {
        return false;
    }
    if n.prefix_len == 0 {
        return true;
    }
    let width: u128 = if n.is_v6 {
        128
    } else {
        32
    };
    let shift = width - n.prefix_len as u128;
    (a.bits >> shift) == (n.addr >> shift)
}

/// Some network of the list contains the address.
pub open spec fn listed(nets: Seq<IpNetwork>, a: IpAddress) -> bool {
    exists|i: int| 0 <= i < nets.len() && network_contains(#[trigger] nets[i], a)
}

/// Blacklisted addresses are refused; otherwise, with a whitelist, only
/// whitelisted addresses are allowed, and without one every address is.
pub open spec fn allowed(white: Seq<IpNetwork>, black: Seq<IpNetwork>, a: IpAddress) -> bool {
    if listed(black, a) {
        false
    } else if white.len() > 0 {
        listed(white, a)
    } else {
        true
    }
}

/// The networks of the texts that parse, in order.
pub open spec fn parsed_networks(cidrs: Seq<String>) -> Seq<IpNetwork>
    decreases cidrs.len(),
{
    if cidrs.len() == 0 {
        Seq::<IpNetwork>::empty()
    } else {
        let rest = parsed_networks(cidrs.drop_last());
        match ipnet_parse(cidrs.last()@) {
            Some(n) => rest.push(n),
            None => rest,
        }
    }
}

/// The list with every entry equal to `n` removed.
pub open spec fn without_network(nets: Seq<IpNetwork>, n: IpNetwork) -> Seq<IpNetwork>
    decreases nets.len(),
{
    if nets.len() == 0 {
        Seq::<IpNetwork>::empty()
    } else if nets.last() != n {
        without_network(nets.drop_last(), n).push(nets.last())
    } else {
        without_network(nets.drop_last(), n)
    }
}

pub struct IpFilter {
    whitelist: Vec<IpNetwork>,
    blacklist: Vec<IpNetwork>,
    whitelist_enabled: bool,
    blacklist_enabled: bool,
}

fn parse_all(cidrs: Vec<String>) -> (r: Vec<IpNetwork>)
    ensures
        r@ == parsed_networks(cidrs@),
        forall|i: int| 0 <= i < r@.len() ==> well_formed_network(#[trigger] r@[i]),
{
    let mut r: Vec<IpNetwork> = Vec::new();
    let mut i: usize = 0;
    while i < cidrs.len()
        invariant
            i <= cidrs.len(),
            r@ == parsed_networks(cidrs@.take(i as int)),
            forall|k: int| 0 <= k < r@.len() ==> well_formed_network(#[trigger] r@[k]),
        decreases cidrs.len() - i,
    {
        assert(cidrs@.take(i + 1).drop_last() =~= cidrs@.take(i as int));
        if let Some(n) = parse_network(cidrs[i].as_str()) {
            r.push(n);
        }
        i = i + 1;
    }
    assert(cidrs@.take(cidrs@.len() as int) =~= cidrs@);
    r
}

fn copy_list(v: &Vec<IpNetwork>) -> (r: Vec<IpNetwork>)
    ensures
        r@ == v@,
{
    let mut r: Vec<IpNetwork> = Vec::new();
    let mut i: usize = 0;
    while i < v.len()
        invariant
            i <= v.len(),
            r@ == v@.take(i as int),
        decreases v.len() - i,
    {
        r.push(v[i]);
        assert(r@ =~= v@.take(i + 1));
        i = i + 1;
    }
    assert(v@.take(v@.len() as int) =~= v@);
    r
}

fn any_contains(nets: &Vec<IpNetwork>, a: &IpAddress) -> (r: bool)
    requires
        forall|i: int| 0 <= i < nets@.len() ==> well_formed_network(#[trigger] nets@[i]),
    ensures
        r == listed(nets@, *a),
{
    let mut i: usize = 0;
    while i < nets.len()
        invariant
            i <= nets.len(),
            forall|k: int| 0 <= k < nets@.len() ==> well_formed_network(#[trigger] nets@[k]),
            forall|k: int| 0 <= k < i ==> !network_contains(#[trigger] nets@[k], *a),
        decreases nets.len() - i,
    {
        if contains(&nets[i], a) {
            return true;
        }
        i = i + 1;
    }
    false
}

fn remove_network(nets: &mut Vec<IpNetwork>, n: IpNetwork)
    requires
        forall|i: int| 0 <= i < old(nets)@.len() ==> well_formed_network(#[trigger] old(nets)@[i]),
    ensures
        final(nets)@ == without_network(old(nets)@, n),
        forall|i: int| 0 <= i < final(nets)@.len() ==> well_formed_network(#[trigger] final(nets)@[i]),
{
    let ghost s = nets@;
    let mut kept: Vec<IpNetwork> = Vec::new();
    let mut i: usize = 0;
    while i < nets.len()
        invariant
            s == nets@,
            i <= s.len(),
            forall|k: int| 0 <= k < s.len() ==> well_formed_network(#[trigger] s[k]),
            kept@ == without_network(s.take(i as int), n),
            forall|k: int| 0 <= k < kept@.len() ==> well_formed_network(#[trigger] kept@[k]),
        decreases nets.len() - i,
    {
        assert(s.take(i + 1).drop_last() =~= s.take(i as int));
        if nets[i] != n {
            kept.push(nets[i]);
        }
        i = i + 1;
    }
    assert(s.take(s.len() as int) =~= s);
    *nets = kept;
}

impl IpFilter {
    #[verifier::type_invariant]
    spec fn consistent(&self) -> bool {
        &&& self.whitelist_enabled == (self.whitelist@.len() > 0)
        &&& self.blacklist_enabled == (self.blacklist@.len() > 0)
        &&& forall|i: int| 0 <= i < self.whitelist@.len() ==> well_formed_network(#[trigger] self.whitelist@[i])
        &&& forall|i: int| 0 <= i < self.blacklist@.len() ==> well_formed_network(#[trigger] self.blacklist@[i])
    }

    pub closed spec fn whitelist(&self) -> Seq<IpNetwork> {
        self.whitelist@
    }

    pub closed spec fn blacklist(&self) -> Seq<IpNetwork> {
        self.blacklist@
    }

    /// A filter that allows every address.
    pub fn new() -> (f: Self)
        ensures
            f.whitelist().len() == 0,
            f.blacklist().len() == 0,
    {
        IpFilter {
            whitelist: Vec::new(),
            blacklist: Vec::new(),
            whitelist_enabled: false,
            blacklist_enabled: false,
        }
    }

    /// Replaces the whitelist with the networks of the texts that parse.
    pub fn with_whitelist(self, cidrs: Vec<String>) -> (f: Self)
        ensures
            f.whitelist() == parsed_networks(cidrs@),
            f.blacklist() == self.blacklist(),
    {
        proof {
            use_type_invariant(&self);
        }
        let whitelist = parse_all(cidrs);
        let enabled = whitelist.len() > 0;
        IpFilter {
            whitelist,
            blacklist: self.blacklist,
            whitelist_enabled: enabled,
            blacklist_enabled: self.blacklist_enabled,
        }
    }

    /// Replaces the blacklist with the networks of the texts that parse.
    pub fn with_blacklist(self, cidrs: Vec<String>) -> (f: Self)
        ensures
            f.blacklist() == parsed_networks(cidrs@),
            f.whitelist() == self.whitelist(),
    {
        proof {
            use_type_invariant(&self);
        }
        let blacklist = parse_all(cidrs);
        let enabled = blacklist.len() > 0;
        IpFilter {
            whitelist: self.whitelist,
            blacklist,
            whitelist_enabled: self.whitelist_enabled,
            blacklist_enabled: enabled,
        }
    }

    /// Appends a network to the whitelist; `false` (and no change) when the
    /// text does not parse.
    pub fn add_to_whitelist(&mut self, cidr: &str) -> (r: bool)
        ensures
            r == ipnet_parse(cidr@) is Some,
            r ==> final(self).whitelist() == old(self).whitelist().push(ipnet_parse(cidr@)->0),
            !r ==> final(self).whitelist() == old(self).whitelist(),
            final(self).blacklist() == old(self).blacklist(),
    {
        proof {
            use_type_invariant(&*self);
        }
        match parse_network(cidr) {
            Some(net) => {
                let mut list = copy_list(&self.whitelist);
                list.push(net);
                *self = IpFilter {
                    whitelist: list,
                    blacklist: copy_list(&self.blacklist),
                    whitelist_enabled: true,
                    blacklist_enabled: self.blacklist_enabled,
                };
                true
            },
            None => false,
        }
    }

    /// Appends a network to the blacklist; `false` (and no change) when the
    /// text does not parse.
    pub fn add_to_blacklist(&mut self, cidr: &str) -> (r: bool)
        ensures
            r == ipnet_parse(cidr@) is Some,
            r ==> final(self).blacklist() == old(self).blacklist().push(ipnet_parse(cidr@)->0),
            !r ==> final(self).blacklist() == old(self).blacklist(),
            final(self).whitelist() == old(self).whitelist(),
    {
        proof {
            use_type_invariant(&*self);
        }
        match parse_network(cidr) {
            Some(net) => {
                let mut list = copy_list(&self.blacklist);
                list.push(net);
                *self = IpFilter {
                    whitelist: copy_list(&self.whitelist),
                    blacklist: list,
                    whitelist_enabled: self.whitelist_enabled,
                    blacklist_enabled: true,
                };
                true
            },
            None => false,
        }
    }

    /// Removes every whitelist entry equal to the parsed network; tells
    /// whether any was removed (`false` when the text does not parse).
    pub fn remove_from_whitelist(&mut self, cidr: &str) -> (r: bool)
        ensures
            ipnet_parse(cidr@) is None ==> !r && final(self).whitelist() == old(self).whitelist(),
            ipnet_parse(cidr@) matches Some(n) ==> final(self).whitelist() == without_network(
                old(self).whitelist(),
                n,
            ) && r == (final(self).whitelist().len() < old(self).whitelist().len()),
            final(self).blacklist() == old(self).blacklist(),
    {
        proof {
            use_type_invariant(&*self);
        }
        match parse_network(cidr) {
            Some(net) => {
                let mut list = copy_list(&self.whitelist);
                let before = list.len();
                remove_network(&mut list, net);
                let removed = list.len() < before;
                let enabled = list.len() > 0;
                *self = IpFilter {
                    whitelist: list,
                    blacklist: copy_list(&self.blacklist),
                    whitelist_enabled: enabled,
                    blacklist_enabled: self.blacklist_enabled,
                };
                removed
            },
            None => false,
        }
    }

    /// Removes every blacklist entry equal to the parsed network; tells
    /// whether any was removed (`false` when the text does not parse).
    pub fn remove_from_blacklist(&mut self, cidr: &str) -> (r: bool)
        ensures
            ipnet_parse(cidr@) is None ==> !r && final(self).blacklist() == old(self).blacklist(),
            ipnet_parse(cidr@) matches Some(n) ==> final(self).blacklist() == without_network(
                old(self).blacklist(),
                n,
            ) && r == (final(self).blacklist().len() < old(self).blacklist().len()),
            final(self).whitelist() == old(self).whitelist(),
    {
        proof {
            use_type_invariant(&*self);
        }
        match parse_network(cidr) {
            Some(net) => {
                let mut list = copy_list(&self.blacklist);
                let before = list.len();
                remove_network(&mut list, net);
                let removed = list.len() < before;
                let enabled = list.len() > 0;
                *self = IpFilter {
                    whitelist: copy_list(&self.whitelist),
                    blacklist: list,
                    whitelist_enabled: self.whitelist_enabled,
                    blacklist_enabled: enabled,
                };
                removed
            },
            None => false,
        }
    }

    /// Whether an address may connect: see `allowed`.
    pub fn is_allowed(&self, ip: IpAddress) -> (r: bool)
        ensures
            r == allowed(self.whitelist(), self.blacklist(), ip),
    {
        proof {
            use_type_invariant(self);
        }
        if self.blacklist_enabled {
            if any_contains(&self.blacklist, &ip) {
                return false;
            }
        }
        if self.whitelist_enabled {
            return any_contains(&self.whitelist, &ip);
        }
        true
    }

    pub fn whitelist_count(&self) -> (r: usize)
        ensures
            r == self.whitelist().len(),
    {
        self.whitelist.len()
    }

    pub fn blacklist_count(&self) -> (r: usize)
        ensures
            r == self.blacklist().len(),
    {
        self.blacklist.len()
    }
}

impl Clone for IpFilter {
    fn clone(&self) -> (r: Self)
        ensures
            r.whitelist() == self.whitelist(),
            r.blacklist() == self.blacklist(),
    {
        proof {
            use_type_invariant(self);
        }
        IpFilter {
            whitelist: copy_list(&self.whitelist),
            blacklist: copy_list(&self.blacklist),
            whitelist_enabled: self.whitelist_enabled,
            blacklist_enabled: self.blacklist_enabled,
        }
    }
}

/// A blacklisted address is refused whatever the whitelist says.
pub proof fn lemma_blacklist_wins(white: Seq<IpNetwork>, black: Seq<IpNetwork>, a: IpAddress, i: int)
    requires
        0 <= i < black.len(),
        network_contains(black[i], a),
    ensures
        !allowed(white, black, a),
{
}

/// With both lists empty, every address is allowed.
pub proof fn lemma_empty_filter_allows_all(a: IpAddress)
    ensures
        allowed(Seq::empty(), Seq::empty(), a),
{
}

/// After a network is removed from a list, no entry equal to it is left.
pub proof fn lemma_removed_network_gone(nets: Seq<IpNetwork>, n: IpNetwork)
    ensures
        forall|i: int| 0 <= i < without_network(nets, n).len() ==> #[trigger] without_network(nets, n)[i] != n,
    decreases nets.len(),
{
    if nets.len() > 0 {
        lemma_removed_network_gone(nets.drop_last(), n);
        let rest = without_network(nets.drop_last(), n);
        if nets.last() != n {
            assert forall|i: int| 0 <= i < rest.push(nets.last()).len() implies #[trigger] rest.push(
                nets.last(),
            )[i] != n by {
                if i < rest.len() {
                    assert(rest.push(nets.last())[i] == rest[i]);
                }
            }
        }
    }
}

impl Default for IpFilter {
    fn default() -> (r: Self)
        ensures
            r.whitelist().len() == 0,
            r.blacklist().len() == 0,
    {
        Self::new()
    }
}

} // verus!
