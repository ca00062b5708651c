//! Registering an inherent data provider with the node's providers.

use vstd::prelude::*;

verus! {

/// Registers a provider (through `register`) unless one of its kind is there
/// already (which `has_provider` tells); an existing one is kept and counts as
/// success.
pub fn register_if_absent<E, H: Fn() -> bool, R: Fn() -> Result<(), E>>(
    has_provider: H,
    register: R,
) -> (r: Result<(), E>)
    requires
        has_provider.requires(()),
        register.requires(()),
    ensures
        exists|has: bool|
            #[trigger] has_provider.ensures((), has) && if has {
                r is Ok
            } else {
                exists|res: Result<(), E>| #[trigger] register.ensures((), res) && r == res
            },
{
    if !has_provider() {
        register()
    } else {
        Ok(())
    }
}

} // verus!
