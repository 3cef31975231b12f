//! The symbol resolver: a pure mapping from a canonical symbol name to
//! the address of a natively implemented fallback, or to nothing.

use vstd::prelude::*;

verus! {

/// Addresses of the natively implemented fallback functions, as the host
/// process sees them.
#[derive(Clone, Copy, Debug, PartialEq, Eq, Structural)]
pub struct NativeFunctions {
    /// Where the native implementation of `hello` lives.
    pub hello: u64,
}

/// The canonical name `hello`, in ASCII.
pub open spec fn hello_name() -> Seq<u8> {
    seq![0x68u8, 0x65u8, 0x6cu8, 0x6cu8, 0x6fu8]
}

/// What a canonical name resolves to: `hello` resolves to its native
/// implementation, every other name is unresolved. Names are compared byte
/// for byte, so case matters and a decorated name (`_hello`) is unresolved.
pub open spec fn resolve(name: Seq<u8>, natives: NativeFunctions) -> Option<u64> {
    if name == hello_name() {
        Some(natives.hello)
    } else {
        None
    }
}

/// Resolves a canonical name. The caller strips the linker's decoration
/// first. An unresolved name is no error: it is left to whoever else may
/// supply the symbol.
pub fn handle_undefined_symbol(name: &[u8], natives: &NativeFunctions) -> (address: Option<u64>)
    ensures
        address == resolve(name@, *natives),
{
    if name.len() == 5 && name[0] == 0x68 && name[1] == 0x65 && name[2] == 0x6c && name[3] == 0x6c
        && name[4] == 0x6f {
        proof {
            assert(name@ =~= hello_name());
        }
        Some(natives.hello)
    } else {
        None
    }
}

/// The bytes of [`hello_name`] spell the word `hello`.
pub proof fn hello_name_spells_hello()
    ensures
        hello_name() == "hello"@.map_values(|c: char| c as u8),
{
    reveal_strlit("hello");
    assert(hello_name() =~= "hello"@.map_values(|c: char| c as u8));
}

/// Only `hello` resolves, and it resolves to the address that the table
/// holds for it.
pub proof fn only_hello_resolves(name: Seq<u8>, natives: NativeFunctions)
    ensures
        resolve(name, natives) is Some <==> name == hello_name(),
        resolve(name, natives) is Some ==> resolve(name, natives) == Some(natives.hello),
        resolve(Seq::<u8>::empty(), natives) is None,
{
    assert(hello_name().len() == 5);
}

} // verus!
