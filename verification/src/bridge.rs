//! The definition generator bridge.
//!
//! When the JIT host meets symbols that no loaded module defines, it hands
//! the bridge the batch of requested names. The bridge normalises each
//! name, asks the resolver, and answers with one weak absolute-symbol
//! definition for every name that resolves. It keeps no state of its own:
//! the same request always gets the same answer.

use crate::names::{drop_leading_underscores, strip_leading_underscores};
use crate::resolver::{handle_undefined_symbol, resolve, NativeFunctions};
use llvm_sys::orc2::LLVMJITSymbolGenericFlags;
use vstd::prelude::*;

verus! {

/// Generic flag bit that marks a symbol as weak: a definition of the same
/// name in a loaded module takes precedence over it. The value is the one
/// that the engine's C interface gives this flag.
pub const GENERIC_FLAG_WEAK: u8 = 2;

/// Linkage flags of a symbol definition.
#[derive(Clone, Copy, Debug, PartialEq, Eq, Structural)]
pub struct SymbolFlags {
    /// Flags that mean the same on every target, as a set of bits.
    pub generic_flags: u8,
    /// Flags that only the target gives a meaning to.
    pub target_flags: u8,
}

/// An address together with the flags it is bound under.
#[derive(Clone, Copy, Debug, PartialEq, Eq, Structural)]
pub struct EvaluatedSymbol {
    /// Where the symbol lives in the host process.
    pub address: u64,
    /// How the symbol is bound.
    pub flags: SymbolFlags,
}

/// A single-entry absolute-symbol definition, ready to be registered with
/// the dynamic library that the request came for.
///
/// `name` is the position of the name handle in the request. The
/// definition owns one reference to that handle: whoever registers it
/// acquires the reference first, once per definition.
#[derive(Clone, Copy, Debug, PartialEq, Eq, Structural)]
pub struct Definition {
    /// Position of the defined name in the request.
    pub name: usize,
    /// What the name is bound to.
    pub symbol: EvaluatedSymbol,
}

/// The flags of every definition that the bridge makes: weak, with no
/// target-specific bits.
pub open spec fn weak_flags() -> SymbolFlags {
    SymbolFlags { generic_flags: GENERIC_FLAG_WEAK, target_flags: 0 }
}

/// The weak definition that binds the name at position `name` to `addr`.
pub open spec fn weak_definition(name: usize, addr: u64) -> Definition {
    Definition { name, symbol: EvaluatedSymbol { address: addr, flags: weak_flags() } }
}

/// The weak flag, taken from the engine's bindings.
///
/// Not proved: the body reads the variant `LLVMJITSymbolGenericFlagsWeak`
/// of llvm-sys's enum `LLVMJITSymbolGenericFlags` as a number. The enum's
/// declaration gives that variant the value 2, which is
/// [`GENERIC_FLAG_WEAK`].
#[verifier::external_body]
fn engine_weak_flag() -> (bits: u8)
    ensures
        bits == GENERIC_FLAG_WEAK,
{
    LLVMJITSymbolGenericFlags::LLVMJITSymbolGenericFlagsWeak as u8
}

/// Builds the weak absolute-symbol definition that redirects the name at
/// position `name` of a request to `addr`.
pub fn redirect(name: usize, addr: u64) -> (definition: Definition)
    ensures
        definition == weak_definition(name, addr),
{
    let flags = SymbolFlags { generic_flags: engine_weak_flag(), target_flags: 0 };
    let sym = EvaluatedSymbol { address: addr, flags };
    Definition { name, symbol: sym }
}

/// The linker-mangled text of each name of a request.
pub open spec fn texts(names: Seq<Vec<u8>>) -> Seq<Seq<u8>> {
    Seq::new(names.len(), |i: int| names[i]@)
}

/// Whether the bridge answers for the mangled name `text`: its canonical
/// form resolves.
pub open spec fn is_answered(text: Seq<u8>, natives: NativeFunctions) -> bool {
    resolve(strip_leading_underscores(text), natives) is Some
}

/// The definitions that the bridge makes for a request, in the order of
/// the request: one for each name that it answers for, none for the
/// others.
pub open spec fn definitions_for(
    request: Seq<Seq<u8>>,
    natives: NativeFunctions,
) -> Seq<Definition>
    decreases request.len(),
{
    if request.len() == 0 {
        Seq::empty()
    } else {
        let earlier = definitions_for(request.drop_last(), natives);
        match resolve(strip_leading_underscores(request.last()), natives) {
            Some(addr) => earlier.push(weak_definition((request.len() - 1) as usize, addr)),
            None => earlier,
        }
    }
}

/// Services one lookup request: for each name, in request order, strips
/// the linker's decoration, asks the resolver, and makes a weak definition
/// where the name resolves. A name that does not resolve is skipped and
/// left to the host.
pub fn generator(names: &Vec<Vec<u8>>, natives: &NativeFunctions) -> (definitions: Vec<Definition>)
    ensures
        definitions@ == definitions_for(texts(names@), *natives),
{
    let mut definitions: Vec<Definition> = Vec::new();
    let mut i: usize = 0;
    proof {
        assert(texts(names@).take(0) =~= Seq::<Seq<u8>>::empty());
    }
    while i < names.len()
        invariant
            i <= names.len(),
            definitions@ == definitions_for(texts(names@).take(i as int), *natives),
        decreases names.len() - i,
    {
        let canonical = drop_leading_underscores(names[i].as_slice());
        let handler = handle_undefined_symbol(canonical, natives);
        proof {
            let done = texts(names@).take(i + 1);
            assert(done.drop_last() =~= texts(names@).take(i as int));
            assert(done.last() == names@[i as int]@);
        }
        match handler {
            Some(addr) => {
                definitions.push(redirect(i, addr));
            },
            None => {},
        }
        i += 1;
    }
    proof {
        assert(texts(names@).take(names.len() as int) =~= texts(names@));
    }
    definitions
}

/// The bridge answers for exactly the names whose canonical form
/// resolves, once each and in the order of the request, and every
/// definition it makes is weak and bound to what the resolver said. So
/// one reference is acquired for each name that is answered for, and none
/// for a name that is skipped.
pub proof fn definitions_follow_request(request: Seq<Seq<u8>>, natives: NativeFunctions)
    requires
        request.len() <= usize::MAX,
    ensures
        definitions_for(request, natives).len() <= request.len(),
        forall|k: int|
            0 <= k < definitions_for(request, natives).len() ==> {
                let d = #[trigger] definitions_for(request, natives)[k];
                &&& d.name < request.len()
                &&& is_answered(request[d.name as int], natives)
                &&& resolve(strip_leading_underscores(request[d.name as int]), natives) == Some(
                    d.symbol.address,
                )
                &&& d.symbol.flags == weak_flags()
            },
        forall|j: int, k: int|
            0 <= j < k < definitions_for(request, natives).len() ==> (
            #[trigger] definitions_for(request, natives)[j]).name < (
            #[trigger] definitions_for(request, natives)[k]).name,
        forall|i: int|
            0 <= i < request.len() && #[trigger] is_answered(request[i], natives) ==> exists|k: int|
                0 <= k < definitions_for(request, natives).len() && (
                #[trigger] definitions_for(request, natives)[k]).name == i,
    decreases request.len(),
{
    if request.len() > 0 {
        let front = request.drop_last();
        let earlier = definitions_for(front, natives);
        let plan = definitions_for(request, natives);
        let last = request.len() - 1;
        definitions_follow_request(front, natives);
        assert forall|i: int| 0 <= i < request.len() && #[trigger] is_answered(request[i], natives)
            implies exists|k: int| 0 <= k < plan.len() && (#[trigger] plan[k]).name == i by {
            if i < last {
                assert(front[i] == request[i]);
                let k = choose|k: int| 0 <= k < earlier.len() && (#[trigger] earlier[k]).name == i;
                assert(plan[k] == earlier[k]);
            } else {
                assert(plan[plan.len() - 1].name == i);
            }
        }
    }
}

/// How many references to the name handle at `position` the definitions
/// own between them: one for each definition of that name.
pub open spec fn references_owned(definitions: Seq<Definition>, position: int) -> nat
    decreases definitions.len(),
{
    if definitions.len() == 0 {
        0
    } else {
        references_owned(definitions.drop_last(), position) + (if definitions.last().name
            == position {
            1nat
        } else {
            0nat
        })
    }
}

/// Definitions that do not name `position` own no reference to it.
proof fn no_definition_no_reference(definitions: Seq<Definition>, position: int)
    requires
        forall|k: int| 0 <= k < definitions.len() ==> (#[trigger] definitions[k]).name != position,
    ensures
        references_owned(definitions, position) == 0,
    decreases definitions.len(),
{
    if definitions.len() > 0 {
        let front = definitions.drop_last();
        assert forall|k: int| 0 <= k < front.len() implies (#[trigger] front[k]).name
            != position by {
            assert(front[k] == definitions[k]);
        }
        no_definition_no_reference(front, position);
        assert(definitions[definitions.len() - 1].name != position);
    }
}

/// The definitions for a request own exactly one reference to each name
/// handle that is answered for, and none to a handle that is skipped. Whoever
/// registers them acquires that many, so that no definition refers to a name
/// that its request has released.
pub proof fn one_reference_per_answered_name(
    request: Seq<Seq<u8>>,
    natives: NativeFunctions,
    position: int,
)
    requires
        request.len() <= usize::MAX,
        0 <= position < request.len(),
    ensures
        references_owned(definitions_for(request, natives), position) == (if is_answered(
            request[position],
            natives,
        ) {
            1nat
        } else {
            0nat
        }),
    decreases request.len(),
{
    let front = request.drop_last();
    let earlier = definitions_for(front, natives);
    let plan = definitions_for(request, natives);
    if position < request.len() - 1 {
        one_reference_per_answered_name(front, natives, position);
        assert(front[position] == request[position]);
        if is_answered(request.last(), natives) {
            assert(plan.drop_last() =~= earlier);
        }
    } else {
        definitions_follow_request(front, natives);
        no_definition_no_reference(earlier, position);
        if is_answered(request.last(), natives) {
            assert(plan.drop_last() =~= earlier);
        }
    }
}

/// `definitions`, with each name's position moved up by `by`.
pub open spec fn moved_up(definitions: Seq<Definition>, by: nat) -> Seq<Definition> {
    Seq::new(
        definitions.len(),
        |k: int| Definition { name: (definitions[k].name + by) as usize, symbol: definitions[k].symbol },
    )
}

/// The answer for a name does not depend on what else is asked with it:
/// the definitions for two requests in one batch are those for the first
/// request followed by those for the second.
pub proof fn batching_changes_nothing(
    first: Seq<Seq<u8>>,
    second: Seq<Seq<u8>>,
    natives: NativeFunctions,
)
    requires
        first.len() + second.len() <= usize::MAX,
    ensures
        definitions_for(first + second, natives) == definitions_for(first, natives) + moved_up(
            definitions_for(second, natives),
            first.len(),
        ),
    decreases second.len(),
{
    let joined = first + second;
    if second.len() == 0 {
        assert(joined =~= first);
        assert(definitions_for(first, natives) + moved_up(
            definitions_for(second, natives),
            first.len(),
        ) =~= definitions_for(first, natives));
    } else {
        batching_changes_nothing(first, second.drop_last(), natives);
        definitions_follow_request(second.drop_last(), natives);
        assert(joined.drop_last() =~= first + second.drop_last());
        assert(joined.last() == second.last());
        assert(definitions_for(joined, natives) =~= definitions_for(first, natives) + moved_up(
            definitions_for(second, natives),
            first.len(),
        ));
    }
}

} // verus!
