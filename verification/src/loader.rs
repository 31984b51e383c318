//! The opcode database loader: parses an embedded, line-based instruction
//! description into an ordered sequence of instructions.
//!
//! The description format, one directive per line, fields separated by
//! `|`:
//!
//! ```text
//! instruction|MOV|Move data between registers
//! form|gas,go|r32,r32
//! form|gas|m32,imm32|notes text
//! ```
//!
//! * `instruction|NAME|SUMMARY` opens a new instruction; `NAME` must be
//!   nonempty.
//! * `form|DIALECTS|OPERANDS` or `form|DIALECTS|OPERANDS|NOTES` adds a
//!   form to the instruction opened last.  `DIALECTS` is a comma-separated
//!   list of dialect names (`gas`, `go`); `OPERANDS` is a comma-separated
//!   list of operand descriptors, empty for none; an absent or empty
//!   `NOTES` field means no notes.
//! * Blank lines are skipped; anything else is malformed.
//!
//! Parsing is deterministic and fails with a [`ParseError`] naming the
//! zero-based offending line when a required field is missing or
//! structurally malformed.

use vstd::prelude::*;

use crate::instr::{
    Arch, Dialect, Form, Instruction, InstructionV, form_wf, forms_views, instr_wf, opt_view,
    spec_dialect_from_name, dialect_from_name,
};
use crate::index::instr_views;
use crate::text::{lemma_split_nonempty, spec_split, split_str, str_eq, str_views};

verus! {

/// Why a description was rejected; each variant names the zero-based
/// line it was found on.
#[derive(Clone, Copy, PartialEq, Eq, Structural, Debug)]
pub enum ParseError {
    /// A directive with the wrong number of fields.
    MissingField { line: usize },
    /// An instruction line with an empty mnemonic.
    EmptyName { line: usize },
    /// A first field that is neither `instruction` nor `form`.
    UnknownDirective { line: usize },
    /// A dialect list with a name that is no dialect.
    UnknownDialect { line: usize },
    /// A form line before the first instruction line.
    FormWithoutInstruction { line: usize },
}

/// The parser's state between lines: finished instructions, and the one
/// still open.
#[verifier::ext_equal]
pub struct ParseState {
    pub done: Seq<InstructionV>,
    pub cur: Option<InstructionV>,
}

/// The open instruction as a sequence of zero or one elements.
pub open spec fn cur_seq(cur: Option<InstructionV>) -> Seq<InstructionV> {
    match cur {
        Option::Some(c) => seq![c],
        Option::None => Seq::empty(),
    }
}

/// The `instruction` directive name.
pub open spec fn instruction_tag() -> Seq<char> {
    seq!['i', 'n', 's', 't', 'r', 'u', 'c', 't', 'i', 'o', 'n']
}

/// The `form` directive name.
pub open spec fn form_tag() -> Seq<char> {
    seq!['f', 'o', 'r', 'm']
}

/// The dialects named by the parts of a dialect list, or nothing when
/// some part names no dialect.
pub open spec fn dialects_of(parts: Seq<Seq<char>>) -> Option<Seq<Dialect>>
    decreases parts.len(),
{
    if parts.len() == 0 {
        Option::Some(Seq::empty())
    } else {
        match (dialects_of(parts.drop_last()), spec_dialect_from_name(parts.last())) {
            (Option::Some(ds), Option::Some(d)) => Option::Some(ds.push(d)),
            _ => Option::None,
        }
    }
}

/// The operand descriptors of an operand field: none for the empty
/// field, else the comma-separated parts.
pub open spec fn operands_of(s: Seq<char>) -> Seq<Seq<char>> {
    if s.len() == 0 {
        Seq::empty()
    } else {
        spec_split(s, ',')
    }
}

/// One line of the description applied to the parser's state.
pub open spec fn spec_line_step(st: ParseState, line: Seq<char>, ln: int, arch: Arch) -> Result<
    ParseState,
    ParseError,
> {
    if line.len() == 0 {
        Result::Ok(st)
    } else {
        let fields = spec_split(line, '|');
        if fields[0] == instruction_tag() {
            if fields.len() != 3 {
                Result::Err(ParseError::MissingField { line: ln as usize })
            } else if fields[1].len() == 0 {
                Result::Err(ParseError::EmptyName { line: ln as usize })
            } else {
                Result::Ok(
                    ParseState {
                        done: st.done + cur_seq(st.cur),
                        cur: Option::Some(
                            InstructionV {
                                name: fields[1],
                                arch,
                                summary: fields[2],
                                forms: Seq::empty(),
                            },
                        ),
                    },
                )
            }
        } else if fields[0] == form_tag() {
            match st.cur {
                Option::None => Result::Err(
                    ParseError::FormWithoutInstruction { line: ln as usize },
                ),
                Option::Some(c) => {
                    if fields.len() != 3 && fields.len() != 4 {
                        Result::Err(ParseError::MissingField { line: ln as usize })
                    } else {
                        match dialects_of(spec_split(fields[1], ',')) {
                            Option::None => Result::Err(
                                ParseError::UnknownDialect { line: ln as usize },
                            ),
                            Option::Some(ds) => {
                                let notes = if fields.len() == 4 && fields[3].len() > 0 {
                                    Option::Some(fields[3])
                                } else {
                                    Option::<Seq<char>>::None
                                };
                                let form = crate::instr::FormV {
                                    operands: operands_of(fields[2]),
                                    dialects: ds,
                                    notes,
                                };
                                Result::Ok(
                                    ParseState {
                                        done: st.done,
                                        cur: Option::Some(
                                            InstructionV { forms: c.forms.push(form), ..c },
                                        ),
                                    },
                                )
                            },
                        }
                    }
                },
            }
        } else {
            Result::Err(ParseError::UnknownDirective { line: ln as usize })
        }
    }
}

/// The whole description applied line by line, the open instruction
/// closed at the end.
pub open spec fn spec_parse_lines(
    st: ParseState,
    lines: Seq<Seq<char>>,
    ln: int,
    arch: Arch,
) -> Result<Seq<InstructionV>, ParseError>
    decreases lines.len(),
{
    if lines.len() == 0 {
        Result::Ok(st.done + cur_seq(st.cur))
    } else {
        match spec_line_step(st, lines[0], ln, arch) {
            Result::Err(e) => Result::Err(e),
            Result::Ok(st2) => spec_parse_lines(st2, lines.drop_first(), ln + 1, arch),
        }
    }
}

/// The instructions described by a description text, in source order.
pub open spec fn spec_populate_instructions(text: Seq<char>, arch: Arch) -> Result<
    Seq<InstructionV>,
    ParseError,
> {
    spec_parse_lines(
        ParseState { done: Seq::empty(), cur: Option::None },
        spec_split(text, '\n'),
        0,
        arch,
    )
}

/// A dialect list with a bad prefix is bad as a whole.
proof fn lemma_dialects_none_extends(parts: Seq<Seq<char>>, k: int)
    requires
        0 <= k <= parts.len(),
        dialects_of(parts.subrange(0, k)) is None,
    ensures
        dialects_of(parts) is None,
    decreases parts.len() - k,
{
    if k < parts.len() {
        let sub1 = parts.subrange(0, k + 1);
        assert(sub1.drop_last() =~= parts.subrange(0, k));
        lemma_dialects_none_extends(parts, k + 1);
    } else {
        assert(parts.subrange(0, k) =~= parts);
    }
}

/// Parses a comma-separated dialect list.
fn parse_dialects(field: &str, ln: usize) -> (r: Result<Vec<Dialect>, ParseError>)
    ensures
        match r {
            Result::Ok(ds) => dialects_of(spec_split(field@, ',')) == Option::Some(ds@)
                && ds@.len() == spec_split(field@, ',').len(),
            Result::Err(e) => dialects_of(spec_split(field@, ',')) is None && e
                == (ParseError::UnknownDialect { line: ln }),
        },
{
    let parts = split_str(field, ',');
    let ghost pv = spec_split(field@, ',');
    let mut ds: Vec<Dialect> = Vec::new();
    let mut i: usize = 0;
    proof {
        assert(pv.subrange(0, 0) =~= Seq::<Seq<char>>::empty());
        assert(dialects_of(pv.subrange(0, 0)) == Option::Some(ds@));
    }
    while i < parts.len()
        invariant
            pv == spec_split(field@, ','),
            str_views(parts@) == pv,
            i <= parts@.len(),
            ds@.len() == i,
            dialects_of(pv.subrange(0, i as int)) == Option::Some(ds@),
        decreases parts@.len() - i,
    {
        proof {
            let sub1 = pv.subrange(0, i as int + 1);
            assert(sub1.drop_last() =~= pv.subrange(0, i as int));
            assert(sub1.last() == pv[i as int]);
        }
        match dialect_from_name(parts[i].as_str()) {
            Some(d) => {
                ds.push(d);
            },
            None => {
                proof {
                    lemma_dialects_none_extends(pv, i as int + 1);
                }
                return Err(ParseError::UnknownDialect { line: ln });
            },
        }
        i = i + 1;
    }
    proof {
        assert(pv.subrange(0, pv.len() as int) =~= pv);
    }
    Ok(ds)
}

/// The parser state held in the loop's locals.
pub open spec fn st_of(
    done: Seq<Instruction>,
    has_cur: bool,
    cur_name: Seq<char>,
    cur_summary: Seq<char>,
    cur_forms: Seq<Form>,
    arch: Arch,
) -> ParseState {
    ParseState {
        done: instr_views(done),
        cur: if has_cur {
            Option::Some(
                InstructionV {
                    name: cur_name,
                    arch,
                    summary: cur_summary,
                    forms: forms_views(cur_forms),
                },
            )
        } else {
            Option::None
        },
    }
}

/// Parses one architecture's instruction description, as
/// [`spec_populate_instructions`] describes: the instructions in source
/// order, or the first error.  Identical input always yields an
/// identical result.
pub fn populate_instructions(text: &str, arch: Arch) -> (r: Result<Vec<Instruction>, ParseError>)
    ensures
        match r {
            Result::Ok(v) => spec_populate_instructions(text@, arch) == Result::<
                Seq<InstructionV>,
                ParseError,
            >::Ok(instr_views(v@)),
            Result::Err(e) => spec_populate_instructions(text@, arch) == Result::<
                Seq<InstructionV>,
                ParseError,
            >::Err(e),
        },
        r is Ok ==> forall|i: int|
            0 <= i < r->Ok_0@.len() ==> instr_wf(#[trigger] r->Ok_0@[i]@) && r->Ok_0@[i]@.arch
                == arch,
{
    let lines = split_str(text, '\n');
    let ghost all = spec_split(text@, '\n');
    let ghost st0 = ParseState { done: Seq::<InstructionV>::empty(), cur: Option::<
        InstructionV,
    >::None };
    let mut done: Vec<Instruction> = Vec::new();
    let mut has_cur: bool = false;
    let mut cur_name: String = String::new();
    let mut cur_summary: String = String::new();
    let mut cur_forms: Vec<Form> = Vec::new();
    let mut ln: usize = 0;
    proof {
        assert(instr_views(done@) =~= Seq::<InstructionV>::empty());
        assert(st_of(done@, has_cur, cur_name@, cur_summary@, cur_forms@, arch) =~= st0);
        assert(all.subrange(0, all.len() as int) =~= all);
    }
    while ln < lines.len()
        invariant
            all == spec_split(text@, '\n'),
            str_views(lines@) == all,
            st0 == (ParseState { done: Seq::<InstructionV>::empty(), cur: Option::<
                InstructionV,
            >::None }),
            ln <= lines@.len(),
            forall|i: int|
                0 <= i < done@.len() ==> instr_wf(#[trigger] done@[i]@) && done@[i]@.arch == arch,
            has_cur ==> cur_name@.len() >= 1,
            has_cur ==> forall|k: int|
                0 <= k < cur_forms@.len() ==> form_wf(#[trigger] cur_forms@[k]@),
            spec_parse_lines(st0, all, 0, arch) == spec_parse_lines(
                st_of(done@, has_cur, cur_name@, cur_summary@, cur_forms@, arch),
                all.subrange(ln as int, all.len() as int),
                ln as int,
                arch,
            ),
        decreases lines@.len() - ln,
    {
        let ghost st_now = st_of(done@, has_cur, cur_name@, cur_summary@, cur_forms@, arch);
        let ghost suffix = all.subrange(ln as int, all.len() as int);
        proof {
            assert(suffix[0] == all[ln as int]);
            assert(suffix.drop_first() =~= all.subrange(ln as int + 1, all.len() as int));
            assert(lines@[ln as int]@ == all[ln as int]);
        }
        let line: &String = &lines[ln];
        if line.as_str().is_empty() {
            proof {
                assert(spec_line_step(st_now, all[ln as int], ln as int, arch)
                    == Result::<ParseState, ParseError>::Ok(st_now));
            }
            ln = ln + 1;
            continue;
        }
        let mut fields = split_str(line.as_str(), '|');
        let ghost fv = spec_split(all[ln as int], '|');
        proof {
            assert(str_views(fields@) == fv);
            assert(fields@[0]@ == fv[0]);
        }
        if str_eq(fields[0].as_str(), "instruction") {
            proof {
                reveal_strlit("instruction");
                assert("instruction"@ =~= instruction_tag());
            }
            if fields.len() != 3 {
                return Err(ParseError::MissingField { line: ln });
            }
            let name = fields.remove(1);
            let summary = fields.remove(1);
            proof {
                assert(name@ == fv[1]);
                assert(summary@ == fv[2]);
            }
            if name.as_str().is_empty() {
                return Err(ParseError::EmptyName { line: ln });
            }
            if has_cur {
                let fin = Instruction { name: cur_name, arch, summary: cur_summary, forms: cur_forms };
                cur_name = String::new();
                cur_summary = String::new();
                cur_forms = Vec::new();
                proof {
                    assert(fin@ == st_now.cur->0);
                }
                done.push(fin);
                proof {
                    assert(instr_views(done@) =~= st_now.done + cur_seq(st_now.cur));
                }
            } else {
                proof {
                    assert(instr_views(done@) =~= st_now.done + cur_seq(st_now.cur));
                }
            }
            cur_name = name;
            cur_summary = summary;
            cur_forms = Vec::new();
            has_cur = true;
            proof {
                assert(forms_views(cur_forms@) =~= Seq::<crate::instr::FormV>::empty());
                let st_next = st_of(done@, has_cur, cur_name@, cur_summary@, cur_forms@, arch);
                assert(st_next =~= spec_line_step(st_now, all[ln as int], ln as int, arch)->Ok_0);
            }
        } else if str_eq(fields[0].as_str(), "form") {
            proof {
                reveal_strlit("form");
                reveal_strlit("instruction");
                assert("form"@ =~= form_tag());
                assert("instruction"@ =~= instruction_tag());
                assert(fv[0] != instruction_tag());
            }
            if !has_cur {
                return Err(ParseError::FormWithoutInstruction { line: ln });
            }
            if !(fields.len() == 3 || fields.len() == 4) {
                return Err(ParseError::MissingField { line: ln });
            }
            let ds = match parse_dialects(fields[1].as_str(), ln) {
                Ok(ds) => ds,
                Err(e) => {
                    proof {
                        assert(fields@[1]@ == fv[1]);
                    }
                    return Err(e);
                },
            };
            proof {
                assert(fields@[1]@ == fv[1]);
                assert(fields@[2]@ == fv[2]);
            }
            let operands: Vec<String> = if fields[2].as_str().is_empty() {
                Vec::new()
            } else {
                split_str(fields[2].as_str(), ',')
            };
            proof {
                assert(str_views(operands@) =~= operands_of(fv[2]));
            }
            let notes: Option<String> = if fields.len() == 4 {
                proof {
                    assert(fields@[3]@ == fv[3]);
                }
                let nf = fields.remove(3);
                if nf.as_str().is_empty() {
                    None
                } else {
                    Some(nf)
                }
            } else {
                None
            };
            let form = Form { operands, dialects: ds, notes };
            proof {
                lemma_split_nonempty(fv[1], ',');
                assert(form_wf(form@));
            }
            cur_forms.push(form);
            proof {
                let st_next = st_of(done@, has_cur, cur_name@, cur_summary@, cur_forms@, arch);
                assert(forms_views(cur_forms@) =~= forms_views(cur_forms@.drop_last()).push(
                    cur_forms@.last()@,
                ));
                assert(st_next =~= spec_line_step(st_now, all[ln as int], ln as int, arch)->Ok_0);
            }
        } else {
            proof {
                reveal_strlit("instruction");
                reveal_strlit("form");
                assert("instruction"@ =~= instruction_tag());
                assert("form"@ =~= form_tag());
            }
            return Err(ParseError::UnknownDirective { line: ln });
        }
        ln = ln + 1;
    }
    proof {
        assert(all.subrange(ln as int, all.len() as int) =~= Seq::<Seq<char>>::empty());
    }
    let ghost st_exit = st_of(done@, has_cur, cur_name@, cur_summary@, cur_forms@, arch);
    if has_cur {
        let fin = Instruction { name: cur_name, arch, summary: cur_summary, forms: cur_forms };
        proof {
            assert(fin@ == st_exit.cur->0);
        }
        done.push(fin);
        proof {
            assert(instr_views(done@) =~= st_exit.done + cur_seq(st_exit.cur));
        }
    } else {
        proof {
            assert(instr_views(done@) =~= st_exit.done + cur_seq(st_exit.cur));
        }
    }
    Ok(done)
}

} // verus!
