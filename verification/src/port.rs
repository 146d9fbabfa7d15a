//! Random port numbers from a half-open range.

use rand::rngs::ThreadRng;
use rand::Rng;
use vstd::prelude::*;

verus! {

#[verifier::external_type_specification]
#[verifier::external_body]
pub struct ExThreadRng(ThreadRng);

/// The random number generator of the current thread: `rand::rng`.
#[verifier::external_body]
fn thread_rng() -> ThreadRng {
    rand::rng()
}

/// One number from `start..end`, drawn with `rand::Rng::random_range`.
///
/// The range must hold a number. Which one is drawn is left open.
#[verifier::external_body]
fn draw_port(rng: &mut ThreadRng, start: u16, end: u16) -> (port: u16)
    requires
        start < end,
    ensures
        start <= port < end,
{
    rng.random_range(start..end)
}

/// Draws `count` ports, each at least `start` and less than `end`, and
/// returns them in the order drawn. A port may come more than once.
pub fn generate_port(start: u16, end: u16, count: u8) -> (ports: Vec<u16>)
    requires
        start < end,
    ensures
        ports@.len() == count,
        forall|i: int| 0 <= i < ports@.len() ==> start <= #[trigger] ports@[i] < end,
{
    let mut rng = thread_rng();
    let mut ports: Vec<u16> = Vec::new();
    let mut drawn: u8 = 0;
    while drawn < count
        invariant
            start < end,
            drawn <= count,
            ports@.len() == drawn,
            forall|i: int| 0 <= i < ports@.len() ==> start <= #[trigger] ports@[i] < end,
        decreases count - drawn,
    {
        let port = draw_port(&mut rng, start, end);
        ports.push(port);
        drawn += 1;
    }
    ports
}

} // verus!
