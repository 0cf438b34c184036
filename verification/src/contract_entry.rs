//! Identifiers for contracts, routes and pools: an unchecked
//! `protocol/contract` pair as a caller writes it, and its case-folded,
//! validated form that keys the address book and the oracle cache. A pool
//! contract is named by its two asset names joined with `_` in sorted
//! order, a channel route by `srcChain>dstChain` under the `hermes`
//! protocol. The composite storage key is two length-prefixed parts.
use vstd::prelude::*;
use vstd::seq_lib::lemma_multiset_commutative;
use vstd::multiset::Multiset;
use vstd::utf8::{decode_utf8, encode_utf8, valid_utf8};

use crate::asset_entry::AssetEntry;
use crate::error::ProxyError;
use crate::strutil::{
    count_char, lex_lt, lower_chars, split_once_exact, str_eq, str_lt, to_ascii_lower, join3,
    lemma_lex_lt_connected,
};

verus! {

#[derive(Debug)]
pub struct UncheckedContractEntry {
    pub protocol: String,
    pub contract: String,
}

impl UncheckedContractEntry {
    pub fn new(protocol: &str, contract: &str) -> (r: Self)
        ensures
            r.protocol@ == protocol@,
            r.contract@ == contract@,
    {
        UncheckedContractEntry { protocol: String::from_str(protocol), contract: String::from_str(
            contract,
        ) }
    }

    /// Case-folds both parts into a checked entry.
    pub fn check(self) -> (r: ContractEntry)
        ensures
            r.protocol@ == lower_chars(self.protocol@),
            r.contract@ == lower_chars(self.contract@),
    {
        ContractEntry {
            contract: to_ascii_lower(self.contract.as_str()),
            protocol: to_ascii_lower(self.protocol.as_str()),
        }
    }

    /// Reads a composite `protocol/contract_name` identifier; any other
    /// shape is refused.
    pub fn try_from(entry: &str) -> (r: Result<Self, ProxyError>)
        ensures
            r is Ok <==> count_char(entry@, '/') == 1,
            r matches Ok(e) ==> entry@ == e.protocol@ + seq!['/'] + e.contract@
                && !e.protocol@.contains('/') && !e.contract@.contains('/')
                && e.protocol@ == crate::strutil::split_at_sep(entry@, '/').0 && e.contract@
                == crate::strutil::split_at_sep(entry@, '/').1,
            r is Err ==> r == Err::<Self, ProxyError>(ProxyError::BadEntryFormat),
    {
        match split_once_exact(entry, '/') {
            Some(parts) => Ok(UncheckedContractEntry { protocol: parts.0, contract: parts.1 }),
            None => Err(ProxyError::BadEntryFormat),
        }
    }
}

impl Clone for UncheckedContractEntry {
    fn clone(&self) -> (r: Self)
        ensures
            r.protocol@ == self.protocol@,
            r.contract@ == self.contract@,
    {
        UncheckedContractEntry { protocol: self.protocol.clone(), contract: self.contract.clone() }
    }
}

/// The ghost image of a checked entry: both parts as character sequences.
pub struct ContractEntryV {
    pub protocol: Seq<char>,
    pub contract: Seq<char>,
}

/// Order of checked entries: by protocol, then by contract name.
pub open spec fn ce_lt(a: ContractEntryV, b: ContractEntryV) -> bool {
    lex_lt(a.protocol, b.protocol) || (a.protocol == b.protocol && lex_lt(a.contract, b.contract))
}

#[derive(Debug)]
pub struct ContractEntry {
    pub protocol: String,
    pub contract: String,
}

impl View for ContractEntry {
    type V = ContractEntryV;

    open spec fn view(&self) -> ContractEntryV {
        ContractEntryV { protocol: self.protocol@, contract: self.contract@ }
    }
}

/// The names of the assets, joined with `sep`.
pub open spec fn join_names(parts: Seq<Seq<char>>, sep: char) -> Seq<char>
    decreases parts.len(),
{
    if parts.len() == 0 {
        Seq::empty()
    } else if parts.len() == 1 {
        parts[0]
    } else {
        parts[0] + seq![sep] + join_names(parts.drop_first(), sep)
    }
}

/// Weak lexicographic order over a sequence of identifiers.
pub open spec fn sorted_names(parts: Seq<Seq<char>>) -> bool {
    forall|i: int, j: int| 0 <= i < j < parts.len() ==> !lex_lt(#[trigger] parts[j], #[trigger] parts[i])
}

impl ContractEntry {
    /// Names the pool that trades the given assets on the given exchange:
    /// the asset names are sorted so that pair lookup does not depend on
    /// the order the caller wrote them in, then joined with `_`.
    pub fn construct_dex_entry(dex_name: &str, assets: &mut Vec<AssetEntry>) -> (r: ContractEntry)
        ensures
            r.protocol@ == lower_chars(dex_name@),
            r.contract@ == join_names(final(assets)@.map_values(|a: AssetEntry| a@), '_'),
            sorted_names(final(assets)@.map_values(|a: AssetEntry| a@)),
            final(assets)@.map_values(|a: AssetEntry| a@).to_multiset() == old(
                assets,
            )@.map_values(|a: AssetEntry| a@).to_multiset(),
    {
        sort_entries(assets);
        let mut name = String::new();
        let ghost views = assets@.map_values(|a: AssetEntry| a@);
        proof {
            assert(name@ =~= join_names(views.take(0), '_'));
        }
        let mut i: usize = 0;
        while i < assets.len()
            invariant
                0 <= i <= assets.len(),
                views == assets@.map_values(|a: AssetEntry| a@),
                name@ == join_names(views.take(i as int), '_'),
            decreases assets.len() - i,
        {
            if i > 0 {
                name.append("_");
            }
            name.append(assets[i].as_str());
            proof {
                reveal_strlit("_");
                lemma_join_names_take(views, i as int + 1);
                if i == 0 {
                    assert(name@ =~= views[0]);
                } else {
                    assert(name@ =~= join_names(views.take(i as int), '_') + seq!['_']
                        + views[i as int]);
                }
            }
            i = i + 1;
        }
        proof {
            assert(views.take(assets@.len() as int) =~= views);
        }
        ContractEntry { protocol: to_ascii_lower(dex_name), contract: name }
    }

    /// Names the route between two chains; the transfer protocol is fixed.
    pub fn construct_channel_entry(src_chain: &str, dst_chain: &str) -> (r: ContractEntry)
        ensures
            r.protocol@ == "hermes"@,
            r.contract@ == src_chain@ + ">"@ + dst_chain@,
    {
        ContractEntry {
            protocol: String::from_str("hermes"),
            contract: join3(src_chain, ">", dst_chain),
        }
    }

    /// Strict order of checked entries.
    pub fn lt(&self, other: &ContractEntry) -> (r: bool)
        ensures
            r == ce_lt(self@, other@),
    {
        if str_eq(self.protocol.as_str(), other.protocol.as_str()) {
            proof {
                crate::strutil::lemma_lex_lt_irreflexive(self.protocol@);
            }
            str_lt(self.contract.as_str(), other.contract.as_str())
        } else {
            str_lt(self.protocol.as_str(), other.protocol.as_str())
        }
    }

    pub fn eq_entry(&self, other: &ContractEntry) -> (r: bool)
        ensures
            r == (self@.protocol == other@.protocol && self@.contract == other@.contract),
    {
        str_eq(self.protocol.as_str(), other.protocol.as_str()) && str_eq(
            self.contract.as_str(),
            other.contract.as_str(),
        )
    }

    /// Serializes the entry the way it is displayed: `protocol/contract`.
    pub fn path(&self) -> (r: String)
        ensures
            r@ == self@.protocol + "/"@ + self@.contract,
    {
        join3(self.protocol.as_str(), "/", self.contract.as_str())
    }
}

impl Clone for ContractEntry {
    fn clone(&self) -> (r: Self)
        ensures
            r@ == self@,
    {
        ContractEntry { protocol: self.protocol.clone(), contract: self.contract.clone() }
    }
}

impl PartialEq for ContractEntry {
    fn eq(&self, other: &Self) -> (r: bool) {
        self.eq_entry(other)
    }
}

impl vstd::std_specs::cmp::PartialEqSpecImpl for ContractEntry {
    open spec fn obeys_eq_spec() -> bool {
        true
    }

    open spec fn eq_spec(&self, other: &Self) -> bool {
        self@.protocol == other@.protocol && self@.contract == other@.contract
    }
}

impl Eq for ContractEntry {

}


/// Relies on `String::from_utf8`: bytes decode exactly when they are
/// valid UTF-8, to the character sequence they encode.
#[verifier::external_body]
fn string_from_utf8(v: Vec<u8>) -> (r: Option<String>)
    ensures
        r is Some <==> valid_utf8(v@),
        r matches Some(s) ==> s@ == decode_utf8(v@),
{
    match String::from_utf8(v) {
        Ok(s) => Some(s),
        Err(_) => None,
    }
}

/// Reads the two-byte big-endian length a composite key starts with.
pub fn parse_length(value: &Vec<u8>) -> (r: Result<usize, ProxyError>)
    ensures
        r is Ok <==> value@.len() == 2,
        r matches Ok(n) ==> n == (value@[0] as int) * 256 + (value@[1] as int),
        r is Err ==> r == Err::<usize, ProxyError>(ProxyError::BadEntryFormat),
{
    if value.len() != 2 {
        return Err(ProxyError::BadEntryFormat);
    }
    Ok((value[0] as usize) * 256 + (value[1] as usize))
}

/// Whether a byte string is a well-formed composite key: a two-byte
/// length, that many bytes of protocol, and the rest the contract name,
/// both valid UTF-8.
pub open spec fn wf_key_bytes(v: Seq<u8>) -> bool {
    let tlen = (v[0] as int) * 256 + (v[1] as int);
    v.len() >= 2 && 2 + tlen <= v.len() && valid_utf8(v.subrange(2, 2 + tlen)) && valid_utf8(
        v.subrange(2 + tlen, v.len() as int),
    )
}

impl ContractEntry {
    /// Reads an entry back out of its composite storage key.
    pub fn from_vec(value: Vec<u8>) -> (r: Result<ContractEntry, ProxyError>)
        ensures
            r is Ok <==> wf_key_bytes(value@),
            r matches Ok(e) ==> ({
                let tlen = (value@[0] as int) * 256 + (value@[1] as int);
                e.protocol@ == decode_utf8(value@.subrange(2, 2 + tlen)) && e.contract@
                    == decode_utf8(value@.subrange(2 + tlen, value@.len() as int))
            }),
            r is Err ==> r == Err::<ContractEntry, ProxyError>(ProxyError::BadEntryFormat),
    {
        if value.len() < 2 {
            return Err(ProxyError::BadEntryFormat);
        }
        let tlen: usize = (value[0] as usize) * 256 + (value[1] as usize);
        if tlen > value.len() - 2 {
            return Err(ProxyError::BadEntryFormat);
        }
        let mut proto_bytes: Vec<u8> = Vec::new();
        let mut i: usize = 2;
        while i < 2 + tlen
            invariant
                2 <= i <= 2 + tlen,
                2 + tlen <= value@.len(),
                proto_bytes@ == value@.subrange(2, i as int),
            decreases 2 + tlen - i,
        {
            proto_bytes.push(value[i]);
            proof {
                assert(proto_bytes@ =~= value@.subrange(2, i as int + 1));
            }
            i = i + 1;
        }
        let mut rest_bytes: Vec<u8> = Vec::new();
        let mut j: usize = 2 + tlen;
        while j < value.len()
            invariant
                2 + tlen <= j <= value@.len(),
                rest_bytes@ == value@.subrange(2 + tlen as int, j as int),
            decreases value@.len() - j,
        {
            rest_bytes.push(value[j]);
            proof {
                assert(rest_bytes@ =~= value@.subrange(2 + tlen as int, j as int + 1));
            }
            j = j + 1;
        }
        let protocol = match string_from_utf8(proto_bytes) {
            None => {
                return Err(ProxyError::BadEntryFormat);
            },
            Some(s) => s,
        };
        let contract = match string_from_utf8(rest_bytes) {
            None => {
                return Err(ProxyError::BadEntryFormat);
            },
            Some(s) => s,
        };
        Ok(ContractEntry { protocol, contract })
    }

    /// The composite storage key of the entry: the length-prefixed
    /// protocol, then the contract name.
    pub fn joined_key(&self) -> (r: Vec<u8>)
        requires
            encode_utf8(self@.protocol).len() <= 0xFFFF,
        ensures
            r@ == seq![
                ((encode_utf8(self@.protocol).len() as int) / 256) as u8,
                ((encode_utf8(self@.protocol).len() as int) % 256) as u8,
            ] + encode_utf8(self@.protocol) + encode_utf8(self@.contract),
    {
        let pb = self.protocol.as_str().as_bytes_vec();
        let cb = self.contract.as_str().as_bytes_vec();
        let mut out: Vec<u8> = Vec::new();
        out.push((pb.len() / 256) as u8);
        out.push((pb.len() % 256) as u8);
        let ghost prefix = seq![
            ((encode_utf8(self@.protocol).len() as int) / 256) as u8,
            ((encode_utf8(self@.protocol).len() as int) % 256) as u8,
        ];
        proof {
            assert(out@ =~= prefix);
        }
        let mut i: usize = 0;
        while i < pb.len()
            invariant
                0 <= i <= pb.len(),
                pb@ == encode_utf8(self@.protocol),
                out@ == prefix + pb@.take(i as int),
            decreases pb.len() - i,
        {
            out.push(pb[i]);
            proof {
                assert(out@ =~= prefix + pb@.take(i as int + 1));
            }
            i = i + 1;
        }
        proof {
            assert(prefix + pb@.take(pb@.len() as int) =~= prefix + pb@);
        }
        let mut j: usize = 0;
        while j < cb.len()
            invariant
                0 <= j <= cb.len(),
                pb@ == encode_utf8(self@.protocol),
                cb@ == encode_utf8(self@.contract),
                out@ == prefix + pb@ + cb@.take(j as int),
            decreases cb.len() - j,
        {
            out.push(cb[j]);
            proof {
                assert(out@ =~= prefix + pb@ + cb@.take(j as int + 1));
            }
            j = j + 1;
        }
        proof {
            assert(prefix + pb@ + cb@.take(cb@.len() as int) =~= prefix + pb@ + cb@);
        }
        out
    }
}

/// Law: a composite key parses back to the entry it was built from.
pub proof fn lemma_joined_key_round_trip(p: Seq<char>, c: Seq<char>)
    requires
        encode_utf8(p).len() <= 0xFFFF,
    ensures
        ({
            let v = seq![
                ((encode_utf8(p).len() as int) / 256) as u8,
                ((encode_utf8(p).len() as int) % 256) as u8,
            ] + encode_utf8(p) + encode_utf8(c);
            wf_key_bytes(v) && decode_utf8(v.subrange(2, 2 + (v[0] as int) * 256 + (v[1] as int)))
                == p && decode_utf8(
                v.subrange(2 + (v[0] as int) * 256 + (v[1] as int), v.len() as int),
            ) == c
        }),
{
    broadcast use vstd::utf8::encode_utf8_valid_utf8;
    broadcast use vstd::utf8::encode_utf8_decode_utf8;

    let pl = encode_utf8(p).len() as int;
    let v = seq![(pl / 256) as u8, (pl % 256) as u8] + encode_utf8(p) + encode_utf8(c);
    assert(v[0] == (pl / 256) as u8 && v[1] == (pl % 256) as u8);
    assert((v[0] as int) * 256 + (v[1] as int) == pl);
    assert(v.subrange(2, 2 + pl) =~= encode_utf8(p));
    assert(v.subrange(2 + pl, v.len() as int) =~= encode_utf8(c));
}

/// Joining one more name appends a separator and the name.
proof fn lemma_join_names_take(parts: Seq<Seq<char>>, i: int)
    requires
        0 < i <= parts.len(),
    ensures
        join_names(parts.take(i), '_') == if i == 1 {
            parts[0]
        } else {
            join_names(parts.take(i - 1), '_') + seq!['_'] + parts[i - 1]
        },
    decreases i,
{
    if i == 1 {
        assert(parts.take(1).len() == 1);
        assert(join_names(parts.take(1), '_') == parts.take(1)[0]);
    } else {
        lemma_join_names_take(parts.drop_first(), i - 1);
        assert(parts.take(i).drop_first() =~= parts.drop_first().take(i - 1));
        if i - 1 == 1 {
            assert(join_names(parts.take(i), '_') == parts[0] + seq!['_'] + join_names(
                parts.take(i).drop_first(),
                '_',
            ));
            assert(parts.take(i - 1) =~= seq![parts[0]]);
        } else {
            assert(parts.take(i - 1).drop_first() =~= parts.drop_first().take(i - 2));
            assert((parts[0] + seq!['_'] + (join_names(parts.drop_first().take(i - 2), '_')
                + seq!['_'] + parts.drop_first()[i - 2])) =~= (parts[0] + seq!['_'] + join_names(
                parts.drop_first().take(i - 2),
                '_',
            )) + seq!['_'] + parts[i - 1]);
        }
    }
}

/// Sorts the identifiers in place, keeping exactly the identifiers given.
fn sort_entries(entries: &mut Vec<AssetEntry>)
    ensures
        sorted_names(final(entries)@.map_values(|a: AssetEntry| a@)),
        final(entries)@.map_values(|a: AssetEntry| a@).to_multiset() == old(
            entries,
        )@.map_values(|a: AssetEntry| a@).to_multiset(),
{
    let ghost orig = entries@.map_values(|a: AssetEntry| a@);
    let mut out: Vec<AssetEntry> = Vec::new();
    proof {
        assert(out@.map_values(|a: AssetEntry| a@) =~= orig.take(0));
    }
    let mut i: usize = 0;
    while i < entries.len()
        invariant
            0 <= i <= entries.len(),
            orig == entries@.map_values(|a: AssetEntry| a@),
            sorted_names(out@.map_values(|a: AssetEntry| a@)),
            out@.map_values(|a: AssetEntry| a@).to_multiset() == orig.take(i as int).to_multiset(),
        decreases entries.len() - i,
    {
        let x = entries[i].clone();
        let mut j: usize = 0;
        while j < out.len() && !x.lt(&out[j])
            invariant
                0 <= j <= out.len(),
                forall|k: int| 0 <= k < j ==> !lex_lt(x@, #[trigger] out@[k]@),
            decreases out.len() - j,
        {
            j = j + 1;
        }
        let ghost out_views = out@.map_values(|a: AssetEntry| a@);
        out.insert(j, x);
        proof {
            let nv = out@.map_values(|a: AssetEntry| a@);
            assert(nv =~= out_views.take(j as int) + seq![x@] + out_views.skip(j as int));
            assert forall|p: int, q: int| 0 <= p < q < nv.len() implies !lex_lt(
                #[trigger] nv[q],
                #[trigger] nv[p],
            ) by {
                if q < j {
                    assert(nv[p] == out_views[p] && nv[q] == out_views[q]);
                } else if p < j && q == j {
                    assert(nv[q] == x@ && nv[p] == out_views[p]);
                    assert(!lex_lt(x@, out_views[p]));
                } else if p < j && q > j {
                    assert(nv[p] == out_views[p] && nv[q] == out_views[q - 1]);
                } else if p == j && q > j {
                    assert(nv[p] == x@ && nv[q] == out_views[q - 1]);
                    if lex_lt(out_views[q - 1], x@) {
                        assert(j < out_views.len());
                        assert(lex_lt(x@, out_views[j as int]));
                        if q - 1 == j {
                            crate::strutil::lemma_lex_lt_asymmetric(x@, out_views[j as int]);
                        } else {
                            crate::strutil::lemma_lex_lt_transitive(
                                out_views[q - 1],
                                x@,
                                out_views[j as int],
                            );
                        }
                        assert(false);
                    }
                } else {
                    assert(nv[p] == out_views[p - 1] && nv[q] == out_views[q - 1]);
                }
            }
            let m1 = out_views.take(j as int).to_multiset();
            let m2 = out_views.skip(j as int).to_multiset();
            let mx = seq![x@].to_multiset();
            assert(out_views.take(j as int) + seq![x@] + out_views.skip(j as int)
                == (out_views.take(j as int) + seq![x@]) + out_views.skip(j as int));
            lemma_multiset_commutative(out_views.take(j as int) + seq![x@], out_views.skip(j as int));
            lemma_multiset_commutative(out_views.take(j as int), seq![x@]);
            lemma_multiset_commutative(out_views.take(j as int), out_views.skip(j as int));
            assert(nv.to_multiset() =~= m1.add(mx).add(m2));
            assert(out_views.take(j as int) + out_views.skip(j as int) =~= out_views);
            assert(out_views.to_multiset() == m1.add(m2));
            orig.take(i as int).to_multiset_ensures();
            assert(orig.take(i as int + 1) =~= orig.take(i as int).push(orig[i as int]));
            Seq::<Seq<char>>::empty().to_multiset_ensures();
            assert(seq![x@] =~= Seq::<Seq<char>>::empty().push(x@));
            assert(Seq::<Seq<char>>::empty().to_multiset() =~= Multiset::<Seq<char>>::empty());
            assert(mx =~= Multiset::<Seq<char>>::empty().insert(x@));
            assert(orig[i as int] == x@);
            assert(orig.take(i as int + 1).to_multiset() =~= orig.take(
                i as int,
            ).to_multiset().insert(x@));
            assert(nv.to_multiset() =~= orig.take(i as int + 1).to_multiset());
        }
        i = i + 1;
    }
    proof {
        assert(orig.take(entries@.len() as int) =~= orig);
    }
    *entries = out;
}

} // verus!
