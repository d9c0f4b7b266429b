//! Best-effort detection of the program's executable path.
//!
//! A short fixed list of candidate locations under the user's home
//! directory is probed in order; the first that exists wins, and the
//! bare program name is the last resort, resolved by the invoking
//! shell's search path at spawn time.  Building the candidate list and
//! choosing among the probe results are pure; only the existence
//! probes themselves belong to the embedding application.

use vstd::prelude::*;

use crate::str_views;

verus! {

/// The candidate locations for the executable named `program`, derived
/// from the home directory with the given path separator: the
/// user-local `bin` directory (with and without the Windows
/// extension), then the per-user program-install directory.
pub open spec fn spec_candidates(home: Seq<char>, sep: Seq<char>, program: Seq<char>) -> Seq<
    Seq<char>,
> {
    seq![
        home + sep + ".local"@ + sep + "bin"@ + sep + program + ".exe"@,
        home + sep + ".local"@ + sep + "bin"@ + sep + program,
        home + sep + "AppData"@ + sep + "Local"@ + sep + "Programs"@ + sep + program + sep
            + program + ".exe"@,
    ]
}

/// Index of the first `true` in `mask` at or after `i`, or
/// `mask.len()` when none follows.
pub open spec fn first_true_from(mask: Seq<bool>, i: int) -> int
    decreases mask.len() - i,
{
    if i < 0 || i >= mask.len() {
        mask.len() as int
    } else if mask[i] {
        i
    } else {
        first_true_from(mask, i + 1)
    }
}

/// Any position preceded only by `false` and itself `true` or the end
/// is where `first_true_from` lands.
proof fn lemma_first_true_from_is(mask: Seq<bool>, i: int, j: int)
    requires
        0 <= i <= j <= mask.len(),
        j < mask.len() ==> mask[j],
        forall|m: int| i <= m < j ==> !mask[m],
    ensures
        first_true_from(mask, i) == j,
    decreases j - i,
{
    if i < j {
        lemma_first_true_from_is(mask, i + 1, j);
    }
}

/// Builds the ordered candidate list for the executable named
/// `program` under `home`, joined with the platform's path separator.
pub fn program_path_candidates(home: &str, sep: &str, program: &str) -> (v: Vec<String>)
    ensures
        str_views(v@) == spec_candidates(home@, sep@, program@),
{
    let mut local_bin = String::new();
    local_bin.append(home);
    local_bin.append(sep);
    local_bin.append(".local");
    local_bin.append(sep);
    local_bin.append("bin");
    local_bin.append(sep);

    let mut with_exe = local_bin.clone();
    with_exe.append(program);
    with_exe.append(".exe");
    let mut bare = local_bin;
    bare.append(program);

    let mut programs = String::new();
    programs.append(home);
    programs.append(sep);
    programs.append("AppData");
    programs.append(sep);
    programs.append("Local");
    programs.append(sep);
    programs.append("Programs");
    programs.append(sep);
    programs.append(program);
    programs.append(sep);
    programs.append(program);
    programs.append(".exe");

    let mut v: Vec<String> = Vec::new();
    v.push(with_exe);
    v.push(bare);
    v.push(programs);
    proof {
        assert(str_views(v@) =~= spec_candidates(home@, sep@, program@));
    }
    v
}

/// Chooses the detected path from the probe results: the first
/// candidate reported to exist, or the bare program name as the last
/// resort.
pub fn choose_detected_path(candidates: &Vec<String>, found: &Vec<bool>, program: &str) -> (r:
    String)
    requires
        candidates@.len() == found@.len(),
    ensures
        ({
            let k = first_true_from(found@, 0);
            if k < found@.len() {
                r@ == candidates@[k]@
            } else {
                r@ == program@
            }
        }),
{
    let mut i: usize = 0;
    while i < candidates.len()
        invariant
            candidates@.len() == found@.len(),
            0 <= i <= found@.len(),
            forall|m: int| 0 <= m < i ==> !found@[m],
        decreases found@.len() - i,
    {
        if found[i] {
            proof {
                lemma_first_true_from_is(found@, 0, i as int);
            }
            return candidates[i].clone();
        }
        i += 1;
    }
    proof {
        lemma_first_true_from_is(found@, 0, found@.len() as int);
    }
    String::from_str(program)
}

} // verus!
