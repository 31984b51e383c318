//! Hover answer composition: renders one instruction's documentation as
//! Markdown, and combines the documentation of every enabled architecture
//! that knows the queried token, base architecture first, separated by a
//! blank line.  An unknown token yields the empty string — deliberately a
//! string, never an error.

use vstd::prelude::*;

use crate::index::NameToInstructionMap;
use crate::instr::{Arch, Form, FormV, Instruction, InstructionV};
use crate::text::lower_seq;

verus! {

/// The rendered architecture tag.
pub open spec fn spec_arch_name(arch: Arch) -> Seq<char> {
    match arch {
        Arch::X86 => seq!['x', '8', '6'],
        Arch::X86_64 => seq!['x', '8', '6', '_', '6', '4'],
    }
}

/// The operand descriptors joined with a comma and a space.
pub open spec fn join_operands(ops: Seq<Seq<char>>) -> Seq<char>
    decreases ops.len(),
{
    if ops.len() == 0 {
        Seq::empty()
    } else if ops.len() == 1 {
        ops[0]
    } else {
        join_operands(ops.drop_last()) + seq![',', ' '] + ops.last()
    }
}

/// One form, rendered as a Markdown list item: its operands, then its
/// notes when present.
pub open spec fn render_form(f: FormV) -> Seq<char> {
    seq!['\n', '\n', '-', ' '] + join_operands(f.operands) + (match f.notes {
        Option::Some(n) => seq![' ', '|', ' '] + n,
        Option::None => Seq::<char>::empty(),
    })
}

/// All forms, rendered in order.
pub open spec fn render_forms(forms: Seq<FormV>) -> Seq<char>
    decreases forms.len(),
{
    if forms.len() == 0 {
        Seq::empty()
    } else {
        render_forms(forms.drop_last()) + render_form(forms.last())
    }
}

/// An instruction's documentation: its mnemonic in bold with the
/// architecture tag, its summary, and its forms.
pub open spec fn render_instruction(iv: InstructionV) -> Seq<char> {
    seq!['*', '*'] + iv.name + seq!['*', '*', ' ', '['] + spec_arch_name(iv.arch) + seq![
        ']',
        '\n',
        '\n',
    ] + iv.summary + render_forms(iv.forms)
}

/// The hover answer for a token: the rendered documentation of each
/// architecture that has the key, in the fixed order x86 then x86_64,
/// separated by a blank line; the empty string when neither has it.
pub open spec fn spec_hover(
    m: Map<(Arch, Seq<char>), InstructionV>,
    word: Seq<char>,
) -> Seq<char> {
    let k86 = (Arch::X86, lower_seq(word));
    let k64 = (Arch::X86_64, lower_seq(word));
    if m.contains_key(k86) && m.contains_key(k64) {
        render_instruction(m[k86]) + seq!['\n', '\n'] + render_instruction(m[k64])
    } else if m.contains_key(k86) {
        render_instruction(m[k86])
    } else if m.contains_key(k64) {
        render_instruction(m[k64])
    } else {
        Seq::empty()
    }
}

/// Joins the operand descriptors, as [`join_operands`] describes.
fn join_operands_exec(ops: &Vec<String>) -> (r: String)
    ensures
        r@ == join_operands(crate::text::str_views(ops@)),
{
    let ghost all = crate::text::str_views(ops@);
    let mut out = String::new();
    let mut i: usize = 0;
    proof {
        assert(all.subrange(0, 0) =~= Seq::<Seq<char>>::empty());
        assert(out@ =~= join_operands(all.subrange(0, 0)));
    }
    while i < ops.len()
        invariant
            all == crate::text::str_views(ops@),
            i <= ops@.len(),
            out@ == join_operands(all.subrange(0, i as int)),
        decreases ops@.len() - i,
    {
        if i > 0 {
            out.append(", ");
            proof {
                reveal_strlit(", ");
                assert(", "@ =~= seq![',', ' ']);
            }
        }
        out.append(ops[i].as_str());
        proof {
            let sub1 = all.subrange(0, i as int + 1);
            assert(sub1.drop_last() =~= all.subrange(0, i as int));
            assert(sub1.last() == all[i as int]);
            if i == 0 {
                assert(out@ =~= join_operands(sub1));
            } else {
                assert(out@ =~= join_operands(sub1));
            }
        }
        i = i + 1;
    }
    proof {
        assert(all.subrange(0, all.len() as int) =~= all);
    }
    out
}

/// Renders one form, as [`render_form`] describes.
fn render_form_exec(f: &Form) -> (r: String)
    ensures
        r@ == render_form(f@),
{
    let mut out = String::new();
    out.append("\n\n- ");
    proof {
        reveal_strlit("\n\n- ");
        assert("\n\n- "@ =~= seq!['\n', '\n', '-', ' ']);
    }
    let ops = join_operands_exec(&f.operands);
    out.append(ops.as_str());
    match &f.notes {
        Some(n) => {
            out.append(" | ");
            proof {
                reveal_strlit(" | ");
                assert(" | "@ =~= seq![' ', '|', ' ']);
            }
            out.append(n.as_str());
            proof {
                assert(out@ =~= render_form(f@));
            }
        },
        None => {
            proof {
                assert(out@ =~= render_form(f@));
            }
        },
    }
    out
}

/// Renders one instruction's documentation, as [`render_instruction`]
/// describes.
pub fn render_instruction_exec(instruction: &Instruction) -> (r: String)
    ensures
        r@ == render_instruction(instruction@),
{
    let mut out = String::new();
    out.append("**");
    out.append(instruction.name.as_str());
    out.append("** [");
    match instruction.arch {
        Arch::X86 => out.append("x86"),
        Arch::X86_64 => out.append("x86_64"),
    }
    out.append("]\n\n");
    out.append(instruction.summary.as_str());
    proof {
        reveal_strlit("**");
        reveal_strlit("** [");
        reveal_strlit("x86");
        reveal_strlit("x86_64");
        reveal_strlit("]\n\n");
        assert("**"@ =~= seq!['*', '*']);
        assert("** ["@ =~= seq!['*', '*', ' ', '[']);
        assert("x86"@ =~= seq!['x', '8', '6']);
        assert("x86_64"@ =~= seq!['x', '8', '6', '_', '6', '4']);
        assert("]\n\n"@ =~= seq![']', '\n', '\n']);
    }
    let ghost header = out@;
    let mut i: usize = 0;
    proof {
        assert(instruction@.forms.subrange(0, 0) =~= Seq::<FormV>::empty());
        assert(out@ =~= header + render_forms(instruction@.forms.subrange(0, 0)));
    }
    while i < instruction.forms.len()
        invariant
            header == seq!['*', '*'] + instruction@.name + seq!['*', '*', ' ', '[']
                + spec_arch_name(instruction@.arch) + seq![']', '\n', '\n'] + instruction@.summary,
            i <= instruction@.forms.len(),
            out@ == header + render_forms(instruction@.forms.subrange(0, i as int)),
        decreases instruction@.forms.len() - i,
    {
        let fs = render_form_exec(&instruction.forms[i]);
        out.append(fs.as_str());
        proof {
            let sub1 = instruction@.forms.subrange(0, i as int + 1);
            assert(sub1.drop_last() =~= instruction@.forms.subrange(0, i as int));
            assert(sub1.last() == instruction@.forms[i as int]);
            assert(instruction@.forms[i as int] == instruction.forms@[i as int]@);
            assert(out@ =~= header + render_forms(sub1));
        }
        i = i + 1;
    }
    proof {
        assert(instruction@.forms.subrange(0, instruction@.forms.len() as int)
            =~= instruction@.forms);
        assert(out@ =~= render_instruction(instruction@));
    }
    out
}

/// Composes the hover answer for a token, as [`spec_hover`] describes:
/// each enabled architecture's documentation for the token, x86 first,
/// blank-line separated; the empty string when the token is unknown.
pub fn hover_content(map: &NameToInstructionMap, word: &str) -> (r: String)
    requires
        map.wf(),
    ensures
        r@ == spec_hover(map@, word@),
{
    let x86_instruction = map.get(Arch::X86, word);
    let x86_64_instruction = map.get(Arch::X86_64, word);
    let mut out = String::new();
    match x86_instruction {
        Some(ins) => {
            let md = render_instruction_exec(ins);
            out.append(md.as_str());
        },
        None => {},
    }
    match x86_64_instruction {
        Some(ins) => {
            match x86_instruction {
                Some(_) => {
                    out.append("\n\n");
                    proof {
                        reveal_strlit("\n\n");
                        assert("\n\n"@ =~= seq!['\n', '\n']);
                    }
                },
                None => {},
            }
            let md = render_instruction_exec(ins);
            out.append(md.as_str());
        },
        None => {},
    }
    proof {
        assert(out@ =~= spec_hover(map@, word@));
    }
    out
}

/// A rendered instruction is never the empty string, so the hover answer
/// is empty exactly when neither architecture knows the token.
pub proof fn lemma_hover_empty_iff(
    m: Map<(Arch, Seq<char>), InstructionV>,
    word: Seq<char>,
)
    ensures
        (spec_hover(m, word) == Seq::<char>::empty()) <==> (!m.contains_key(
            (Arch::X86, lower_seq(word)),
        ) && !m.contains_key((Arch::X86_64, lower_seq(word)))),
{
    let k86 = (Arch::X86, lower_seq(word));
    let k64 = (Arch::X86_64, lower_seq(word));
    if m.contains_key(k86) || m.contains_key(k64) {
        assert(spec_hover(m, word).len() >= 2);
    } else {
        assert(spec_hover(m, word) =~= Seq::<char>::empty());
    }
}

} // verus!
