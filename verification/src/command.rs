//! Backend-specific command construction from a validated request.
//!
//! The terminal-multiplexer (primary) backend takes a discrete argument
//! vector and involves no shell, so its arguments are passed verbatim.
//! The shell-based fallback backend takes one command string, built with
//! single-quoting so that no interpolated value can break out.  Both
//! forms are pure transforms of the request alone.

use vstd::prelude::*;

use crate::quoting::{lemma_read_doubled, quote_single, spec_doubled, spec_quoted, spec_read_quoted};
use crate::{str_views, LaunchRequest, LaunchRequestView};

verus! {

/// The quoted flags of the fallback command string, each preceded by a
/// separating space.
pub open spec fn spec_flags_suffix(flags: Seq<Seq<char>>) -> Seq<char>
    decreases flags.len(),
{
    if flags.len() == 0 {
        Seq::empty()
    } else {
        seq![' '] + spec_quoted(flags[0]) + spec_flags_suffix(flags.skip(1))
    }
}

/// The single-line shell command that invokes the program: the call
/// operator, the quoted path, the `remote-control` token when asked
/// for, then each flag quoted, all space-separated and in input order.
pub open spec fn spec_program_cmd(path: Seq<char>, remote_control: bool, flags: Seq<Seq<char>>) -> Seq<char> {
    "& "@ + spec_quoted(path) + (if remote_control {
        " 'remote-control'"@
    } else {
        Seq::empty()
    }) + spec_flags_suffix(flags)
}

/// Whether a request carries a non-empty pre-launch command.
pub open spec fn spec_has_pre_launch(pre: Option<Seq<char>>) -> bool {
    match pre {
        Some(c) => c.len() > 0,
        None => false,
    }
}

/// The inline shell command of the fallback backend: the program
/// command, preceded by the pre-launch command and `; ` when one is set.
pub open spec fn spec_fallback_inline(rv: LaunchRequestView) -> Seq<char> {
    let cmd = spec_program_cmd(rv.program_path, rv.remote_control, rv.flags);
    if spec_has_pre_launch(rv.pre_launch_command) {
        rv.pre_launch_command.unwrap() + "; "@ + cmd
    } else {
        cmd
    }
}

/// The argument vector handed to the terminal multiplexer: open a new
/// tab under the requested profile and working directory, then after
/// the option separator either the program and its flags verbatim, or
/// a nested shell invocation carrying the inline command string.
pub open spec fn spec_multiplexer_args(rv: LaunchRequestView) -> Seq<Seq<char>> {
    let base = seq![
        "new-tab"@,
        "--profile"@,
        rv.terminal_profile,
        "-d"@,
        rv.project_path,
        "--"@,
    ];
    if spec_has_pre_launch(rv.pre_launch_command) {
        base + seq!["pwsh"@, "-NoExit"@, "-Command"@, spec_fallback_inline(rv)]
    } else {
        base + seq![rv.program_path] + (if rv.remote_control {
            seq!["remote-control"@]
        } else {
            Seq::empty()
        }) + rv.flags
    }
}

/// The parts joined with the separator between each two neighbours.
pub open spec fn spec_join_sep(parts: Seq<Seq<char>>, sep: Seq<char>) -> Seq<char>
    decreases parts.len(),
{
    if parts.len() == 0 {
        Seq::empty()
    } else if parts.len() == 1 {
        parts[0]
    } else {
        parts[0] + sep + spec_join_sep(parts.skip(1), sep)
    }
}

/// The flags suffix distributes over concatenation.
proof fn lemma_flags_suffix_concat(a: Seq<Seq<char>>, b: Seq<Seq<char>>)
    ensures
        spec_flags_suffix(a + b) == spec_flags_suffix(a) + spec_flags_suffix(b),
    decreases a.len(),
{
    if a.len() == 0 {
        assert(a + b =~= b);
        assert(spec_flags_suffix(a) + spec_flags_suffix(b) =~= spec_flags_suffix(b));
    } else {
        assert((a + b).skip(1) =~= a.skip(1) + b);
        lemma_flags_suffix_concat(a.skip(1), b);
        assert(spec_flags_suffix(a + b) =~= spec_flags_suffix(a) + spec_flags_suffix(b));
    }
}

/// Joining one more part appends the separator and that part.
proof fn lemma_join_sep_snoc(parts: Seq<Seq<char>>, sep: Seq<char>, x: Seq<char>)
    requires
        parts.len() >= 1,
    ensures
        spec_join_sep(parts.push(x), sep) == spec_join_sep(parts, sep) + sep + x,
    decreases parts.len(),
{
    if parts.len() == 1 {
        assert(parts.push(x).skip(1) =~= seq![x]);
        assert(spec_join_sep(seq![x], sep) == x);
    } else {
        assert(parts.push(x).skip(1) =~= parts.skip(1).push(x));
        lemma_join_sep_snoc(parts.skip(1), sep, x);
        assert(spec_join_sep(parts.push(x), sep) =~= spec_join_sep(parts, sep) + sep + x);
    }
}

/// Builds the single-line shell command that invokes the program, with
/// every interpolated value single-quoted.
pub fn build_pwsh_cmd(request: &LaunchRequest) -> (r: String)
    ensures
        r@ == spec_program_cmd(request@.program_path, request@.remote_control, request@.flags),
{
    let mut r = String::new();
    r.append("& ");
    let quoted_path = quote_single(request.program_path.as_str());
    r.append(quoted_path.as_str());
    if request.remote_control {
        r.append(" 'remote-control'");
    }
    let ghost head = r@;
    proof {
        assert(head + spec_flags_suffix(request@.flags.take(0)) =~= head);
    }
    let mut i: usize = 0;
    while i < request.flags.len()
        invariant
            request@.flags == str_views(request.flags@),
            request@.flags.len() == request.flags@.len(),
            0 <= i <= request.flags@.len(),
            r@ == head + spec_flags_suffix(request@.flags.take(i as int)),
        decreases request.flags@.len() - i,
    {
        r.append(" ");
        let quoted_flag = quote_single(request.flags[i].as_str());
        r.append(quoted_flag.as_str());
        proof {
            reveal_strlit(" ");
            let prefix = request@.flags.take(i as int);
            let unit = seq![request@.flags[i as int]];
            assert(request@.flags.take(i + 1) =~= prefix + unit);
            lemma_flags_suffix_concat(prefix, unit);
            assert(unit.skip(1) =~= Seq::<Seq<char>>::empty());
            assert(spec_flags_suffix(Seq::empty()) =~= Seq::<char>::empty());
            assert(spec_flags_suffix(unit) =~= seq![' '] + spec_quoted(unit[0]));
            assert(r@ =~= head + spec_flags_suffix(request@.flags.take(i + 1)));
        }
        i += 1;
    }
    proof {
        assert(request@.flags.take(request.flags@.len() as int) =~= request@.flags);
    }
    r
}

/// Builds the inline fallback command: the pre-launch command first
/// when one is set, then the quoted program invocation.
pub fn build_fallback_inline(request: &LaunchRequest) -> (r: String)
    ensures
        r@ == spec_fallback_inline(request@),
{
    let program_cmd = build_pwsh_cmd(request);
    match &request.pre_launch_command {
        Some(pre) if !pre.as_str().is_empty() => {
            let mut r = String::new();
            r.append(pre.as_str());
            r.append("; ");
            r.append(program_cmd.as_str());
            r
        },
        _ => program_cmd,
    }
}

/// Builds the argument vector for the terminal multiplexer.
pub fn build_multiplexer_args(request: &LaunchRequest) -> (args: Vec<String>)
    ensures
        str_views(args@) == spec_multiplexer_args(request@),
{
    let mut args: Vec<String> = Vec::new();
    args.push(String::from_str("new-tab"));
    args.push(String::from_str("--profile"));
    args.push(request.terminal_profile.clone());
    args.push(String::from_str("-d"));
    args.push(request.project_path.clone());
    args.push(String::from_str("--"));
    let ghost base = seq![
        "new-tab"@,
        "--profile"@,
        request@.terminal_profile,
        "-d"@,
        request@.project_path,
        "--"@,
    ];
    proof {
        assert(str_views(args@) =~= base);
    }
    let has_pre_launch = match &request.pre_launch_command {
        Some(c) => !c.as_str().is_empty(),
        None => false,
    };
    if has_pre_launch {
        let inline = build_fallback_inline(request);
        args.push(String::from_str("pwsh"));
        args.push(String::from_str("-NoExit"));
        args.push(String::from_str("-Command"));
        args.push(inline);
        proof {
            assert(str_views(args@) =~= spec_multiplexer_args(request@));
        }
    } else {
        args.push(request.program_path.clone());
        if request.remote_control {
            args.push(String::from_str("remote-control"));
        }
        let ghost mid = str_views(args@);
        proof {
            assert(mid =~= base + seq![request@.program_path] + (if request@.remote_control {
                seq!["remote-control"@]
            } else {
                Seq::<Seq<char>>::empty()
            }));
            assert(mid + request@.flags.take(0) =~= mid);
        }
        let mut i: usize = 0;
        while i < request.flags.len()
            invariant
                request@.flags == str_views(request.flags@),
                request@.flags.len() == request.flags@.len(),
                0 <= i <= request.flags@.len(),
                str_views(args@) == mid + request@.flags.take(i as int),
            decreases request.flags@.len() - i,
        {
            let flag_copy = request.flags[i].clone();
            let ghost pre = args@;
            args.push(flag_copy);
            proof {
                assert(request@.flags.take(i + 1) =~= request@.flags.take(i as int).push(
                    request@.flags[i as int],
                ));
                assert(str_views(args@) =~= str_views(pre).push(request@.flags[i as int]));
                assert(str_views(args@) =~= mid + request@.flags.take(i + 1));
            }
            i += 1;
        }
        proof {
            assert(request@.flags.take(request.flags@.len() as int) =~= request@.flags);
            assert(str_views(args@) =~= spec_multiplexer_args(request@));
        }
    }
    args
}

/// Joins the parts with the separator between each two neighbours,
/// for audit records and for re-joining log lines.
pub fn join_with(parts: &Vec<String>, sep: &str) -> (r: String)
    ensures
        r@ == spec_join_sep(str_views(parts@), sep@),
{
    let mut r = String::new();
    if parts.len() == 0 {
        return r;
    }
    r.append(parts[0].as_str());
    proof {
        assert(str_views(parts@).take(1) =~= seq![parts@[0]@]);
        assert(spec_join_sep(seq![parts@[0]@], sep@) == parts@[0]@);
        assert(r@ =~= spec_join_sep(str_views(parts@).take(1), sep@));
    }
    let mut i: usize = 1;
    while i < parts.len()
        invariant
            1 <= i <= parts@.len(),
            r@ == spec_join_sep(str_views(parts@).take(i as int), sep@),
        decreases parts@.len() - i,
    {
        r.append(sep);
        r.append(parts[i].as_str());
        proof {
            let views = str_views(parts@);
            assert(views.take(i + 1) =~= views.take(i as int).push(views[i as int]));
            lemma_join_sep_snoc(views.take(i as int), sep@, views[i as int]);
            assert(r@ =~= spec_join_sep(views.take(i + 1), sep@));
        }
        i += 1;
    }
    proof {
        assert(str_views(parts@).take(parts@.len() as int) =~= str_views(parts@));
    }
    r
}

/// Law: the fallback command string quotes the program path so that a
/// quoting-aware reader recovers it exactly.  The path stands as the
/// first quoted token, whatever single quotes it contains.
pub proof fn lemma_fallback_round_trip(path: Seq<char>, remote_control: bool, flags: Seq<Seq<char>>)
    ensures
        ({
            let cmd = spec_program_cmd(path, remote_control, flags);
            &&& cmd.len() >= 3
            &&& cmd[0] == '&'
            &&& cmd[1] == ' '
            &&& cmd[2] == '\''
            &&& spec_read_quoted(cmd.skip(3)).0 == path
        }),
{
    reveal_strlit("& ");
    reveal_strlit(" 'remote-control'");
    let cmd = spec_program_cmd(path, remote_control, flags);
    let tail = (if remote_control {
        " 'remote-control'"@
    } else {
        Seq::<char>::empty()
    }) + spec_flags_suffix(flags);
    if tail.len() > 0 {
        if remote_control {
            assert(tail[0] == ' ');
        } else {
            assert(flags.len() > 0);
            assert(tail =~= spec_flags_suffix(flags));
            assert(tail[0] == ' ');
        }
    }
    assert(cmd =~= "& "@ + spec_quoted(path) + tail);
    assert(cmd.skip(3) =~= spec_doubled(path) + seq!['\''] + tail);
    lemma_read_doubled(path, tail);
}

} // verus!
