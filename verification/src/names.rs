//! Canonical symbol names.
//!
//! A linker may decorate a symbol name with leading underscores. The
//! canonical name is the decorated name with all of them removed.

use vstd::prelude::*;
use vstd::slice::slice_subrange;

verus! {

/// The ASCII underscore, which linkers put in front of a symbol name.
pub const UNDERSCORE: u8 = 0x5f;

/// The canonical form of `s`: underscores are taken off the front one by
/// one until the first byte is no underscore or nothing is left.
pub open spec fn strip_leading_underscores(s: Seq<u8>) -> Seq<u8>
    decreases s.len(),
{
    if s.len() > 0 && s[0] == UNDERSCORE {
        strip_leading_underscores(s.skip(1))
    } else {
        s
    }
}

/// Number of underscores in front of the first byte of `s` that is none.
pub open spec fn leading_underscores(s: Seq<u8>) -> nat
    decreases s.len(),
{
    if s.len() > 0 && s[0] == UNDERSCORE {
        1 + leading_underscores(s.skip(1))
    } else {
        0
    }
}

/// Removes every leading underscore of `name`. A name made of
/// underscores alone, or an empty one, gives the empty name.
pub fn drop_leading_underscores(name: &[u8]) -> (canonical: &[u8])
    ensures
        canonical@ == strip_leading_underscores(name@),
{
    let mut start: usize = 0;
    proof {
        assert(name@.skip(0) =~= name@);
    }
    while start < name.len() && name[start] == UNDERSCORE
        invariant
            start <= name.len(),
            strip_leading_underscores(name@) == strip_leading_underscores(name@.skip(start as int)),
        decreases name.len() - start,
    {
        proof {
            assert(name@.skip(start as int).skip(1) =~= name@.skip(start + 1));
        }
        start += 1;
    }
    proof {
        assert(name@.subrange(start as int, name.len() as int) =~= name@.skip(start as int));
    }
    slice_subrange(name, start, name.len())
}

/// Stripping takes off exactly the leading underscores: what is left is
/// the name from its first byte on that is no underscore.
pub proof fn strip_skips_leading_underscores(s: Seq<u8>)
    ensures
        leading_underscores(s) <= s.len(),
        strip_leading_underscores(s) == s.skip(leading_underscores(s) as int),
        forall|i: int| 0 <= i < leading_underscores(s) ==> s[i] == UNDERSCORE,
        leading_underscores(s) < s.len() ==> s[leading_underscores(s) as int] != UNDERSCORE,
    decreases s.len(),
{
    if s.len() > 0 && s[0] == UNDERSCORE {
        let rest = s.skip(1);
        strip_skips_leading_underscores(rest);
        let k = leading_underscores(rest) as int;
        assert(rest.skip(k) =~= s.skip(k + 1));
        assert forall|i: int| 0 <= i < k + 1 implies s[i] == UNDERSCORE by {
            if i > 0 {
                assert(s[i] == rest[i - 1]);
            }
        }
        if k + 1 < s.len() {
            assert(s[k + 1] == rest[k]);
        }
    } else {
        assert(s.skip(0) =~= s);
    }
}

/// A canonical name does not begin with an underscore.
pub proof fn stripped_has_no_leading_underscore(s: Seq<u8>)
    ensures
        strip_leading_underscores(s).len() == 0 || strip_leading_underscores(s)[0] != UNDERSCORE,
    decreases s.len(),
{
    if s.len() > 0 && s[0] == UNDERSCORE {
        stripped_has_no_leading_underscore(s.skip(1));
    }
}

/// A name that consists of underscores alone has the empty canonical
/// name.
pub proof fn strip_of_underscores_is_empty(s: Seq<u8>)
    requires
        forall|i: int| 0 <= i < s.len() ==> s[i] == UNDERSCORE,
    ensures
        strip_leading_underscores(s) == Seq::<u8>::empty(),
    decreases s.len(),
{
    if s.len() > 0 {
        let rest = s.skip(1);
        assert forall|i: int| 0 <= i < rest.len() implies rest[i] == UNDERSCORE by {
            assert(rest[i] == s[i + 1]);
        }
        strip_of_underscores_is_empty(rest);
    } else {
        assert(s =~= Seq::<u8>::empty());
    }
}

/// A name that does not start with an underscore is its own canonical
/// name.
pub proof fn strip_without_prefix_is_identity(s: Seq<u8>)
    requires
        s.len() == 0 || s[0] != UNDERSCORE,
    ensures
        strip_leading_underscores(s) == s,
{
}

/// Stripping is idempotent: a canonical name is its own canonical name.
pub proof fn strip_is_idempotent(s: Seq<u8>)
    ensures
        strip_leading_underscores(strip_leading_underscores(s)) == strip_leading_underscores(s),
{
    stripped_has_no_leading_underscore(s);
    strip_without_prefix_is_identity(strip_leading_underscores(s));
}

} // verus!
