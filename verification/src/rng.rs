use vstd::prelude::*;
use rand::Rng;

verus! {

/// Relies on rand::Rng::gen_range over the inclusive range 1..=100: the range
/// is not empty, so the call does not panic and returns a value inside it.
/// Nothing more is assumed: the draw is random, so callers only learn the
/// bounds.
#[verifier::external_body]
pub(crate) fn valor_tarefa_aleatorio() -> (r: u32)
    ensures
        1 <= r <= 100,
{
    rand::thread_rng().gen_range(1..=100)
}

/// Relies on rand::Rng::gen_range over the range 0..n: with n >= 1 the range
/// is not empty, so the call does not panic and returns a value inside it.
#[verifier::external_body]
pub(crate) fn indice_aleatorio(n: usize) -> (r: usize)
    requires
        1 <= n,
    ensures
        r < n,
{
    rand::thread_rng().gen_range(0..n)
}

} // verus!
