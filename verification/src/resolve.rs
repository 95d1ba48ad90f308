use vstd::prelude::*;
use crate::text::{texts_of, lemma_texts_of_push};

verus! {

/// The resolved argument list for one batch.
///
/// With a placeholder `p`, every template token byte-for-byte equal to `p`
/// is replaced in place by the whole ordered replacement list (no partial or
/// substring matching); all other tokens are kept unchanged, in order. With
/// no placeholder, the replacements are appended, in order, after the last
/// template token.
pub open spec fn resolve_spec(
    cmd: Seq<Seq<char>>,
    replstr: Option<Seq<char>>,
    repl: Seq<Seq<char>>,
) -> Seq<Seq<char>>
    decreases cmd.len(),
{
    match replstr {
        Option::None => cmd + repl,
        Option::Some(p) => if cmd.len() == 0 {
            Seq::empty()
        } else {
            (if cmd[0] == p {
                repl
            } else {
                seq![cmd[0]]
            }) + resolve_spec(cmd.drop_first(), replstr, repl)
        },
    }
}

/// Resolving one more template token appends either the replacement list
/// (when the token equals the placeholder) or that token alone.
pub proof fn lemma_resolve_push(
    cmd: Seq<Seq<char>>,
    p: Seq<char>,
    repl: Seq<Seq<char>>,
    x: Seq<char>,
)
    ensures
        resolve_spec(cmd.push(x), Some(p), repl) == resolve_spec(cmd, Some(p), repl) + (if x == p {
            repl
        } else {
            seq![x]
        }),
    decreases cmd.len(),
{
    let piece: Seq<Seq<char>> = if x == p {
        repl
    } else {
        seq![x]
    };
    if cmd.len() == 0 {
        assert(cmd.push(x)[0] == x);
        assert(cmd.push(x).drop_first() =~= Seq::<Seq<char>>::empty());
        assert(piece + resolve_spec(Seq::empty(), Some(p), repl) =~= piece);
        assert(resolve_spec(cmd, Some(p), repl) + piece =~= piece);
    } else {
        let head: Seq<Seq<char>> = if cmd[0] == p {
            repl
        } else {
            seq![cmd[0]]
        };
        assert(cmd.push(x)[0] == cmd[0]);
        assert(cmd.push(x).drop_first() =~= cmd.drop_first().push(x));
        lemma_resolve_push(cmd.drop_first(), p, repl, x);
        assert(head + (resolve_spec(cmd.drop_first(), Some(p), repl) + piece) =~= (head
            + resolve_spec(cmd.drop_first(), Some(p), repl)) + piece);
    }
}

/// When no template token equals the placeholder, resolution leaves the
/// template unchanged: substitution is exact-token, never substring.
pub proof fn lemma_no_match_unchanged(cmd: Seq<Seq<char>>, p: Seq<char>, repl: Seq<Seq<char>>)
    requires
        forall|i: int| 0 <= i < cmd.len() ==> cmd[i] != p,
    ensures
        resolve_spec(cmd, Some(p), repl) == cmd,
    decreases cmd.len(),
{
    if cmd.len() == 0 {
        assert(resolve_spec(cmd, Some(p), repl) =~= cmd);
    } else {
        lemma_no_match_unchanged(cmd.drop_first(), p, repl);
        assert(seq![cmd[0]] + cmd.drop_first() =~= cmd);
    }
}

/// With no placeholder configured, the replacements always come after all
/// template tokens, and both orders are preserved.
pub proof fn lemma_no_placeholder_appends(cmd: Seq<Seq<char>>, repl: Seq<Seq<char>>)
    ensures
        resolve_spec(cmd, None, repl) == cmd + repl,
        forall|i: int| 0 <= i < cmd.len() ==> resolve_spec(cmd, None, repl)[i] == cmd[i],
        forall|i: int|
            0 <= i < repl.len() ==> resolve_spec(cmd, None, repl)[cmd.len() + i] == repl[i],
{
}

/// Replace every template token exactly equal to `replstr` with the full
/// replacement list, or append the replacements when `replstr` is absent,
/// returning the argument list to hand to the child process.
pub fn resolve_replstr(command: &[String], replstr: Option<&str>, replacements: Vec<String>) -> (r:
    Vec<String>)
    ensures
        texts_of(r@) == resolve_spec(
            texts_of(command@),
            match replstr {
                Some(p) => Some(p@),
                None => None,
            },
            texts_of(replacements@),
        ),
{
    let mut cmd_args: Vec<String> = Vec::new();
    proof {
        assert(texts_of(cmd_args@) =~= Seq::<Seq<char>>::empty());
    }
    match replstr {
        Some(replstr) => {
            let needle: String = replstr.to_owned();
            let ghost cmdv = texts_of(command@);
            let ghost replv = texts_of(replacements@);
            let n = command.len();
            proof {
                assert(cmdv.take(0) =~= Seq::<Seq<char>>::empty());
                assert(resolve_spec(cmdv.take(0), Some(needle@), replv) =~= Seq::<
                    Seq<char>,
                >::empty());
            }
            for j in 0..n
                invariant
                    n == command@.len(),
                    cmdv == texts_of(command@),
                    replv == texts_of(replacements@),
                    needle@ == replstr@,
                    texts_of(cmd_args@) == resolve_spec(cmdv.take(j as int), Some(needle@), replv),
            {
                let arg = &command[j];
                proof {
                    lemma_resolve_push(cmdv.take(j as int), needle@, replv, cmdv[j as int]);
                    assert(cmdv.take(j as int).push(cmdv[j as int]) =~= cmdv.take(j + 1));
                }
                if *arg == needle {
                    assert(cmdv[j as int] == needle@);
                    let m = replacements.len();
                    let ghost base = texts_of(cmd_args@);
                    proof {
                        assert(base + replv.take(0) =~= base);
                    }
                    for k in 0..m
                        invariant
                            m == replacements@.len(),
                            replv == texts_of(replacements@),
                            texts_of(cmd_args@) == base + replv.take(k as int),
                    {
                        let ghost prevv = cmd_args@;
                        cmd_args.push(replacements[k].clone());
                        proof {
                            lemma_texts_of_push(prevv, cmd_args@[prevv.len() as int]);
                            assert(texts_of(cmd_args@) =~= (base + replv.take(k as int)).push(
                                replv[k as int],
                            ));
                            assert((base + replv.take(k as int)).push(replv[k as int]) =~= base
                                + replv.take(k + 1));
                        }
                    }
                    proof {
                        assert(replv.take(m as int) =~= replv);
                    }
                } else {
                    assert(cmdv[j as int] != needle@);
                    let ghost prevv = cmd_args@;
                    cmd_args.push(arg.clone());
                    proof {
                        lemma_texts_of_push(prevv, cmd_args@[prevv.len() as int]);
                        assert(texts_of(cmd_args@) =~= texts_of(prevv) + seq![cmdv[j as int]]);
                    }
                }
            }
            proof {
                assert(cmdv.take(n as int) =~= cmdv);
            }
        },
        None => {
            let ghost cmdv = texts_of(command@);
            let ghost replv = texts_of(replacements@);
            proof {
                assert(cmdv.take(0) =~= Seq::<Seq<char>>::empty());
            }
            let n = command.len();
            for j in 0..n
                invariant
                    n == command@.len(),
                    cmdv == texts_of(command@),
                    replv == texts_of(replacements@),
                    texts_of(cmd_args@) == cmdv.take(j as int),
            {
                let ghost prevv = cmd_args@;
                cmd_args.push(command[j].clone());
                proof {
                    lemma_texts_of_push(prevv, cmd_args@[prevv.len() as int]);
                    assert(texts_of(cmd_args@) =~= cmdv.take(j + 1));
                }
            }
            let m = replacements.len();
            proof {
                assert(cmdv.take(n as int) =~= cmdv);
                assert(cmdv + replv.take(0) =~= cmdv);
            }
            for k in 0..m
                invariant
                    m == replacements@.len(),
                    cmdv == texts_of(command@),
                    replv == texts_of(replacements@),
                    texts_of(cmd_args@) == cmdv + replv.take(k as int),
            {
                let ghost prevv = cmd_args@;
                cmd_args.push(replacements[k].clone());
                proof {
                    lemma_texts_of_push(prevv, cmd_args@[prevv.len() as int]);
                    assert(texts_of(cmd_args@) =~= cmdv + replv.take(k + 1));
                }
            }
            proof {
                assert(cmdv + replv.take(m as int) =~= cmdv + replv);
            }
        },
    }
    cmd_args
}

} // verus!
