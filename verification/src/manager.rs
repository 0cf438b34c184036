//! Raw-query helpers for the manager contract: the byte keys its module
//! map is read under. The queries themselves are chain reads; what is
//! verified here is the key a name maps to.
use vstd::prelude::*;

verus! {

/// Relies on `cosmwasm_storage::to_length_prefixed`: a two-byte
/// big-endian length prefix followed by the namespace itself.
#[verifier::external_body]
fn length_prefixed(namespace: &Vec<u8>) -> (r: Vec<u8>)
    requires
        namespace@.len() <= 0xFFFF,
    ensures
        r@ == seq![((namespace@.len() as int) / 256) as u8, ((namespace@.len() as int) % 256) as u8]
            + namespace@,
{
    cosmwasm_storage::to_length_prefixed(namespace.as_slice())
}

/// Two byte strings, one after the other.
pub fn concat(namespace: &Vec<u8>, key: &Vec<u8>) -> (r: Vec<u8>)
    ensures
        r@ == namespace@ + key@,
{
    let mut out: Vec<u8> = Vec::new();
    let mut i: usize = 0;
    while i < namespace.len()
        invariant
            0 <= i <= namespace.len(),
            out@ == namespace@.take(i as int),
        decreases namespace.len() - i,
    {
        out.push(namespace[i]);
        proof {
            assert(out@ =~= namespace@.take(i as int + 1));
        }
        i = i + 1;
    }
    proof {
        assert(namespace@.take(namespace@.len() as int) =~= namespace@);
    }
    let mut j: usize = 0;
    while j < key.len()
        invariant
            0 <= j <= key.len(),
            out@ == namespace@ + key@.take(j as int),
        decreases key.len() - j,
    {
        out.push(key[j]);
        proof {
            assert(out@ =~= namespace@ + key@.take(j as int + 1));
        }
        j = j + 1;
    }
    proof {
        assert(namespace@ + key@.take(key@.len() as int) =~= namespace@ + key@);
    }
    out
}

/// The raw storage key the manager keeps a module's address under: the
/// length-prefixed `os_modules` namespace followed by the module's name.
pub fn module_key(module_name: &Vec<u8>) -> (r: Vec<u8>)
    ensures
        r@ == seq![
            0u8,
            10u8,
            111u8,
            115u8,
            95u8,
            109u8,
            111u8,
            100u8,
            117u8,
            108u8,
            101u8,
            115u8,
        ] + module_name@,
{
    let namespace: Vec<u8> = vec![111u8, 115u8, 95u8, 109u8, 111u8, 100u8, 117u8, 108u8, 101u8, 115u8];
    let prefixed = length_prefixed(&namespace);
    let r = concat(&prefixed, module_name);
    proof {
        assert(r@ =~= seq![
            0u8,
            10u8,
            111u8,
            115u8,
            95u8,
            109u8,
            111u8,
            100u8,
            117u8,
            108u8,
            101u8,
            115u8,
        ] + module_name@);
    }
    r
}

} // verus!
