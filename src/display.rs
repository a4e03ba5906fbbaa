//! Choices behind what the console shows: chain colours, deadline colours and the
//! target deadline announced with a block.
use vstd::prelude::*;
use vstd::string::*;
use crate::arbiter::{latest_height, Arbiter};
use crate::text::str_equal;

verus! {

/// Relies on `rand::Rng::gen_range` on the thread's generator: a value in
/// `0..len`, which panics only on an empty range.
#[verifier::external_body]
fn random_below(len: usize) -> (r: usize)
    requires
        len > 0,
    ensures
        r < len,
{
    rand::Rng::gen_range(&mut rand::thread_rng(), 0..len)
}

pub open spec fn color_names() -> Seq<Seq<char>> {
    seq!["green"@, "yellow"@, "blue"@, "magenta"@, "cyan"@, "white"@]
}

pub open spec fn is_valid_color(c: Seq<char>) -> bool {
    color_names().contains(c)
}

fn color_name(i: usize) -> (r: &'static str)
    requires
        i < 6,
    ensures
        r@ == color_names()[i as int],
{
    if i == 0 {
        "green"
    } else if i == 1 {
        "yellow"
    } else if i == 2 {
        "blue"
    } else if i == 3 {
        "magenta"
    } else if i == 4 {
        "cyan"
    } else {
        "white"
    }
}

/// The colour a chain is shown in: white where chain colours are off, the configured
/// colour where it is valid, else a valid colour picked at random.
pub fn get_color(col: &str, use_poc_chain_colors: bool) -> (r: String)
    ensures
        !use_poc_chain_colors ==> r@ == "white"@,
        use_poc_chain_colors && is_valid_color(col@) ==> r@ == col@,
        is_valid_color(r@),
{
    if !use_poc_chain_colors {
        let r = String::from_str("white");
        assert(color_names()[5] == r@);
        return r;
    }
    let mut i: usize = 0;
    while i < 6
        invariant
            i <= 6,
            use_poc_chain_colors,
            forall|j: int| 0 <= j < i ==> color_names()[j] != col@,
        decreases 6 - i,
    {
        if str_equal(col, color_name(i)) {
            let r = String::from_str(col);
            assert(color_names()[i as int] == r@);
            return r;
        }
        i = i + 1;
    }
    let r = String::from_str(color_name(random_below(6)));
    proof {
        let k = choose|k: int| 0 <= k < 6 && color_names()[k] == r@;
        assert(color_names().contains(r@));
    }
    r
}

/// Colour of a submitted deadline: within an hour, within a day, longer.
#[derive(PartialEq, Eq, Structural, Clone, Copy, Debug)]
pub enum DeadlineColor {
    Green,
    Yellow,
    White,
}

/// Green within an hour, yellow within a day, white beyond.
pub fn deadline_color(deadline: u64) -> (r: DeadlineColor)
    ensures
        r == if deadline <= 3600 {
            DeadlineColor::Green
        } else if deadline <= 86400 {
            DeadlineColor::Yellow
        } else {
            DeadlineColor::White
        },
{
    if deadline <= 3600 {
        DeadlineColor::Green
    } else if deadline <= 86400 {
        DeadlineColor::Yellow
    } else {
        DeadlineColor::White
    }
}

pub open spec fn announced_target(upstream: u64, chain_target: Option<u64>, dynamic: Option<u64>) -> (u64, bool) {
    let base = match chain_target {
        Some(t) => t,
        None => if upstream == 0 {
            u64::MAX
        } else {
            upstream
        },
    };
    match dynamic {
        Some(d) => if d < base {
            (d, false)
        } else {
            (base, true)
        },
        None => (base, false),
    }
}

/// The target deadline announced with a block: the chain's own, else the upstream's
/// (0 meaning none), lowered to the dynamic deadline where that is smaller; the flag
/// says that a dynamic deadline exceeds it.
pub fn block_target_deadline(upstream: u64, chain_target: Option<u64>, dynamic: Option<u64>) -> (r: (u64, bool))
    ensures
        r == announced_target(upstream, chain_target, dynamic),
{
    let base = match chain_target {
        Some(t) => t,
        None => if upstream == 0 {
            u64::MAX
        } else {
            upstream
        },
    };
    match dynamic {
        Some(d) => if d < base {
            (d, false)
        } else {
            (base, true)
        },
        None => (base, false),
    }
}

/// Whether `height` of chain `index` is the block being mined: only submissions for
/// it are shown.
pub fn is_current_block(arbiter: &Arbiter, index: u8, height: u32) -> (r: bool)
    requires
        arbiter.wf(),
    ensures
        r == (index == arbiter.current() && height == (if arbiter.states()[arbiter.current()].latest is Some {
            latest_height(arbiter.states()[arbiter.current()])
        } else {
            0
        })),
{
    let current = arbiter.get_current_chain_index();
    let (current_height, _) = arbiter.get_latest_chain_info(current, 0);
    current == index && current_height == height
}

} // verus!
