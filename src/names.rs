//! Attribute names in the filesystem's extended-attribute namespace.
use vstd::prelude::*;

verus! {

/// The namespace token and its separator, `bcachefs.`, as bytes.
pub open spec fn namespace_prefix() -> Seq<u8> {
    seq![98u8, 99u8, 97u8, 99u8, 104u8, 101u8, 102u8, 115u8, 46u8]
}

/// The full extended-attribute name under which the attribute `attr` is stored.
pub open spec fn namespaced_spec(attr: Seq<u8>) -> Seq<u8> {
    namespace_prefix() + attr
}

/// Prefixes a bare attribute name with the namespace token and separator.
pub fn namespaced(attr: &[u8]) -> (r: Vec<u8>)
    ensures
        r@ == namespaced_spec(attr@),
{
    // "bcachefs."
    let mut r: Vec<u8> = vec![98u8, 99u8, 97u8, 99u8, 104u8, 101u8, 102u8, 115u8, 46u8];
    assert(r@ =~= namespace_prefix());
    let mut i: usize = 0;
    while i < attr.len()
        invariant
            i <= attr@.len(),
            r@ =~= namespace_prefix() + attr@.subrange(0, i as int),
        decreases attr@.len() - i,
    {
        r.push(attr[i]);
        i = i + 1;
    }
    assert(attr@.subrange(0, attr@.len() as int) =~= attr@);
    r
}

} // verus!
