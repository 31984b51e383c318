//! The data model: architectures, assembler dialects, instruction forms,
//! instructions, and the startup configuration.

use vstd::prelude::*;

use crate::text::str_views;

verus! {

/// An instruction-set architecture.  The order of the variants is the
/// fixed rendering order for hover answers: `X86` is the base
/// architecture and comes first.
#[derive(Clone, Copy, PartialEq, Eq, Structural, Debug)]
pub enum Arch {
    X86,
    X86_64,
}

/// An assembler dialect that may recognize an instruction form.
#[derive(Clone, Copy, PartialEq, Eq, Structural, Debug)]
pub enum Dialect {
    Gas,
    Go,
}

/// One operand-signature variant of an instruction.
#[derive(Debug)]
pub struct Form {
    /// Operand descriptors, in order.
    pub operands: Vec<String>,
    /// The dialects that recognize this exact form.  A well-formed form
    /// names at least one dialect.
    pub dialects: Vec<Dialect>,
    /// Optional encoding or notes text.
    pub notes: Option<String>,
}

/// The mathematical model of a [`Form`].
#[verifier::ext_equal]
pub struct FormV {
    pub operands: Seq<Seq<char>>,
    pub dialects: Seq<Dialect>,
    pub notes: Option<Seq<char>>,
}

/// The models of a sequence of forms.
pub open spec fn forms_views(v: Seq<Form>) -> Seq<FormV> {
    v.map_values(|f: Form| f@)
}

/// The model of an optional string.
pub open spec fn opt_view(o: Option<String>) -> Option<Seq<char>> {
    match o {
        Option::Some(s) => Option::Some(s@),
        Option::None => Option::None,
    }
}

impl View for Form {
    type V = FormV;

    open spec fn view(&self) -> FormV {
        FormV {
            operands: str_views(self.operands@),
            dialects: self.dialects@,
            notes: opt_view(self.notes),
        }
    }
}

/// An architecture-scoped documentation unit.
#[derive(Debug)]
pub struct Instruction {
    /// Case-preserving mnemonic.
    pub name: String,
    /// The architecture this record documents the mnemonic for.
    pub arch: Arch,
    /// Free-text summary.
    pub summary: String,
    /// Operand-signature variants, in source order.
    pub forms: Vec<Form>,
}

/// The mathematical model of an [`Instruction`].
#[verifier::ext_equal]
pub struct InstructionV {
    pub name: Seq<char>,
    pub arch: Arch,
    pub summary: Seq<char>,
    pub forms: Seq<FormV>,
}

impl View for Instruction {
    type V = InstructionV;

    open spec fn view(&self) -> InstructionV {
        InstructionV {
            name: self.name@,
            arch: self.arch,
            summary: self.summary@,
            forms: forms_views(self.forms@),
        }
    }
}

/// A well-formed form names at least one dialect.
pub open spec fn form_wf(f: FormV) -> bool {
    f.dialects.len() >= 1
}

/// A well-formed instruction has a nonempty mnemonic and well-formed forms.
pub open spec fn instr_wf(i: InstructionV) -> bool {
    &&& i.name.len() >= 1
    &&& forall|k: int| 0 <= k < i.forms.len() ==> form_wf(#[trigger] i.forms[k])
}

/// Which architectures are enabled at startup.
pub struct InstructionSets {
    pub x86: bool,
    pub x86_64: bool,
}

/// The process-wide configuration, read once at startup and immutable
/// thereafter: per-architecture enablement and the enabled dialects.
pub struct TargetConfig {
    pub instruction_sets: InstructionSets,
    pub assemblers: Vec<Dialect>,
}

/// The mathematical model of a [`TargetConfig`].
#[verifier::ext_equal]
pub struct TargetConfigV {
    pub x86: bool,
    pub x86_64: bool,
    pub assemblers: Seq<Dialect>,
}

impl View for TargetConfig {
    type V = TargetConfigV;

    open spec fn view(&self) -> TargetConfigV {
        TargetConfigV {
            x86: self.instruction_sets.x86,
            x86_64: self.instruction_sets.x86_64,
            assemblers: self.assemblers@,
        }
    }
}

impl TargetConfigV {
    /// Whether the given architecture is enabled.
    pub open spec fn arch_enabled(self, arch: Arch) -> bool {
        match arch {
            Arch::X86 => self.x86,
            Arch::X86_64 => self.x86_64,
        }
    }
}

/// The dialect a name denotes: `gas` or `go`.
pub open spec fn spec_dialect_from_name(s: Seq<char>) -> Option<Dialect> {
    if s == seq!['g', 'a', 's'] {
        Option::Some(Dialect::Gas)
    } else if s == seq!['g', 'o'] {
        Option::Some(Dialect::Go)
    } else {
        Option::None
    }
}

/// Parses a dialect name, as [`spec_dialect_from_name`] describes.
pub fn dialect_from_name(s: &str) -> (r: Option<Dialect>)
    ensures
        r == spec_dialect_from_name(s@),
{
    proof {
        let gas = seq!['g', 'a', 's'];
        let go = seq!['g', 'o'];
        assert(gas.len() == 3 && gas[0] == 'g' && gas[1] == 'a' && gas[2] == 's');
        assert(go.len() == 2 && go[0] == 'g' && go[1] == 'o');
    }
    let n = s.unicode_len();
    if n == 3 {
        let c0 = s.get_char(0);
        let c1 = s.get_char(1);
        let c2 = s.get_char(2);
        if c0 == 'g' && c1 == 'a' && c2 == 's' {
            proof {
                assert(s@ =~= seq!['g', 'a', 's']);
            }
            Some(Dialect::Gas)
        } else {
            None
        }
    } else if n == 2 {
        let c0 = s.get_char(0);
        let c1 = s.get_char(1);
        if c0 == 'g' && c1 == 'o' {
            proof {
                assert(s@ =~= seq!['g', 'o']);
            }
            Some(Dialect::Go)
        } else {
            None
        }
    } else {
        None
    }
}

/// Builds the startup configuration from the client-supplied options.
/// An architecture left unset is enabled; an absent dialect list enables
/// every dialect.  These defaults make an empty initialization behave as
/// "everything enabled".
pub fn get_target_config(
    x86: Option<bool>,
    x86_64: Option<bool>,
    assemblers: Option<Vec<Dialect>>,
) -> (r: TargetConfig)
    ensures
        r@.x86 == (match x86 {
            Option::Some(b) => b,
            Option::None => true,
        }),
        r@.x86_64 == (match x86_64 {
            Option::Some(b) => b,
            Option::None => true,
        }),
        r@.assemblers == (match assemblers {
            Option::Some(v) => v@,
            Option::None => seq![Dialect::Gas, Dialect::Go],
        }),
{
    let enabled_x86 = match x86 {
        Some(b) => b,
        None => true,
    };
    let enabled_x86_64 = match x86_64 {
        Some(b) => b,
        None => true,
    };
    let dialects = match assemblers {
        Some(v) => v,
        None => {
            let mut all: Vec<Dialect> = Vec::new();
            all.push(Dialect::Gas);
            all.push(Dialect::Go);
            proof {
                assert(all@ =~= seq![Dialect::Gas, Dialect::Go]);
            }
            all
        },
    };
    TargetConfig { instruction_sets: InstructionSets { x86: enabled_x86, x86_64: enabled_x86_64 }, assemblers: dialects }
}

} // verus!
