//! The player types that the simulator can seat, their display names and how
//! the command line selects them.
use vstd::prelude::*;
use crate::energy::str_starts_with;

verus! {

/// The heuristic players that a match can seat, oldest first.
#[derive(Clone, Copy, PartialEq, Eq, Debug, Structural)]
pub enum AiType {
    RandomAi,
    RandomAiV2,
    RandomAiV3,
    RandomAiV4,
}

/// The display name of a player type.
pub open spec fn ai_label(ai_type: AiType) -> Seq<char> {
    match ai_type {
        AiType::RandomAi => "RandomAi"@,
        AiType::RandomAiV2 => "RandomAiV2"@,
        AiType::RandomAiV3 => "RandomAiV3"@,
        AiType::RandomAiV4 => "RandomAiV4"@,
    }
}

/// The display name of a player type.
pub fn ai_name(ai_type: AiType) -> (r: &'static str)
    ensures
        r@ == ai_label(ai_type),
{
    match ai_type {
        AiType::RandomAi => "RandomAi",
        AiType::RandomAiV2 => "RandomAiV2",
        AiType::RandomAiV3 => "RandomAiV3",
        AiType::RandomAiV4 => "RandomAiV4",
    }
}

/// Whether two strings hold the same characters.
pub fn str_eq(s: &str, lit: &str) -> (r: bool)
    ensures
        r == (s@ == lit@),
{
    if s.unicode_len() != lit.unicode_len() {
        return false;
    }
    let r = str_starts_with(s, lit);
    assert(s@.take(lit@.len() as int) =~= s@);
    r
}

/// The player type that a command-line word selects: `v2`, `v3` and `v4` pick
/// the later players, anything else the first one.
pub open spec fn ai_for_arg(arg: Seq<char>) -> AiType {
    if arg == "v2"@ {
        AiType::RandomAiV2
    } else if arg == "v3"@ {
        AiType::RandomAiV3
    } else if arg == "v4"@ {
        AiType::RandomAiV4
    } else {
        AiType::RandomAi
    }
}

/// The player type that a command-line word selects.
pub fn parse_ai_arg(arg: &str) -> (r: AiType)
    ensures
        r == ai_for_arg(arg@),
{
    if str_eq(arg, "v2") {
        AiType::RandomAiV2
    } else if str_eq(arg, "v3") {
        AiType::RandomAiV3
    } else if str_eq(arg, "v4") {
        AiType::RandomAiV4
    } else {
        AiType::RandomAi
    }
}

/// How the simulator pairs decks.
#[derive(Clone, Copy, PartialEq, Eq, Debug, Structural)]
pub enum Mode {
    /// Every deck against every deck.
    Matrix,
    /// One deck against itself.
    Single,
    /// Each deck against itself.
    Diagonal,
    /// The chosen player against every older one, on the public decks.
    Bench,
}

/// The mode that a command-line word selects; any other word leaves the
/// full matrix.
pub open spec fn mode_for_arg(arg: Seq<char>) -> Mode {
    if arg == "single"@ {
        Mode::Single
    } else if arg == "diagonal"@ {
        Mode::Diagonal
    } else if arg == "bench"@ || arg == "public-bench"@ {
        Mode::Bench
    } else {
        Mode::Matrix
    }
}

/// The mode that a command-line word selects.
pub fn parse_mode(arg: &str) -> (r: Mode)
    ensures
        r == mode_for_arg(arg@),
{
    if str_eq(arg, "single") {
        Mode::Single
    } else if str_eq(arg, "diagonal") {
        Mode::Diagonal
    } else if str_eq(arg, "bench") || str_eq(arg, "public-bench") {
        Mode::Bench
    } else {
        Mode::Matrix
    }
}

/// Whether a word names a mode (so that it is not read as a player type).
pub fn is_mode_word(arg: &str) -> (r: bool)
    ensures
        r == (mode_for_arg(arg@) != Mode::Matrix),
{
    match parse_mode(arg) {
        Mode::Matrix => false,
        _ => true,
    }
}

/// The position of a player type in the order oldest first.
pub open spec fn ai_rank(ai_type: AiType) -> int {
    match ai_type {
        AiType::RandomAi => 0,
        AiType::RandomAiV2 => 1,
        AiType::RandomAiV3 => 2,
        AiType::RandomAiV4 => 3,
    }
}

/// The player type at a position of the order oldest first.
pub open spec fn ai_at(k: int) -> AiType {
    if k == 0 {
        AiType::RandomAi
    } else if k == 1 {
        AiType::RandomAiV2
    } else if k == 2 {
        AiType::RandomAiV3
    } else {
        AiType::RandomAiV4
    }
}

/// The player types older than `ai_type`, oldest first: the opponents that a
/// benchmark of `ai_type` plays against.
pub fn previous_ais(ai_type: AiType) -> (r: Vec<AiType>)
    ensures
        r@.len() == ai_rank(ai_type),
        forall|k: int| 0 <= k < r@.len() ==> r@[k] == ai_at(k),
{
    let order = [AiType::RandomAi, AiType::RandomAiV2, AiType::RandomAiV3, AiType::RandomAiV4];
    let n: usize = match ai_type {
        AiType::RandomAi => 0,
        AiType::RandomAiV2 => 1,
        AiType::RandomAiV3 => 2,
        AiType::RandomAiV4 => 3,
    };
    let mut r: Vec<AiType> = Vec::new();
    let mut k: usize = 0;
    while k < n
        invariant
            n == ai_rank(ai_type),
            k <= n,
            order@ == seq![AiType::RandomAi, AiType::RandomAiV2, AiType::RandomAiV3, AiType::RandomAiV4],
            r@.len() == k,
            forall|j: int| 0 <= j < k ==> r@[j] == ai_at(j),
        decreases n - k,
    {
        r.push(order[k]);
        k = k + 1;
    }
    r
}

} // verus!
