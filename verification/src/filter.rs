//! The target filter: a pure transformation restricting an instruction's
//! forms to those recognized by at least one enabled assembler dialect.
//! The filter never drops the instruction record itself; the decision to
//! exclude an instruction left with zero forms belongs to the index
//! boundary.

use vstd::prelude::*;

use crate::instr::{
    Dialect, Form, FormV, Instruction, InstructionV, TargetConfig, TargetConfigV, form_wf,
    forms_views, opt_view,
};

verus! {

/// Whether a form is recognized by some enabled dialect: its dialect set
/// intersects the enabled set.
pub open spec fn form_enabled(f: FormV, cfg: TargetConfigV) -> bool {
    exists|i: int| 0 <= i < f.dialects.len() && cfg.assemblers.contains(#[trigger] f.dialects[i])
}

/// The filter predicate for a fixed configuration.
pub open spec fn enabled_pred(cfg: TargetConfigV) -> spec_fn(FormV) -> bool {
    |f: FormV| form_enabled(f, cfg)
}

/// The result of filtering: the same instruction with only the enabled
/// forms kept, in order.
pub open spec fn spec_filter_targets(i: InstructionV, cfg: TargetConfigV) -> InstructionV {
    InstructionV {
        name: i.name,
        arch: i.arch,
        summary: i.summary,
        forms: i.forms.filter(enabled_pred(cfg)),
    }
}

/// Whether the vector contains the given dialect.
fn dialect_in(v: &Vec<Dialect>, d: Dialect) -> (r: bool)
    ensures
        r == v@.contains(d),
{
    let mut i: usize = 0;
    while i < v.len()
        invariant
            i <= v@.len(),
            forall|j: int| 0 <= j < i ==> v@[j] != d,
        decreases v@.len() - i,
    {
        if v[i] == d {
            proof {
                assert(v@[i as int] == d);
            }
            return true;
        }
        i = i + 1;
    }
    false
}

/// Whether some dialect of the form is enabled by the configuration.
fn form_has_enabled(f: &Form, config: &TargetConfig) -> (r: bool)
    ensures
        r == form_enabled(f@, config@),
{
    let mut i: usize = 0;
    while i < f.dialects.len()
        invariant
            i <= f.dialects@.len(),
            forall|j: int| 0 <= j < i ==> !config.assemblers@.contains(#[trigger] f.dialects@[j]),
        decreases f.dialects@.len() - i,
    {
        if dialect_in(&config.assemblers, f.dialects[i]) {
            proof {
                assert(config.assemblers@.contains(f@.dialects[i as int]));
            }
            return true;
        }
        i = i + 1;
    }
    false
}

/// An exact copy of a string.
pub fn clone_string(s: &String) -> (r: String)
    ensures
        r@ == s@,
{
    s.clone()
}

/// An exact copy of a vector of strings.
fn clone_string_vec(v: &Vec<String>) -> (r: Vec<String>)
    ensures
        r@ == v@,
{
    let mut out: Vec<String> = Vec::new();
    let mut i: usize = 0;
    while i < v.len()
        invariant
            i <= v@.len(),
            out@ =~= v@.subrange(0, i as int),
        decreases v@.len() - i,
    {
        out.push(v[i].clone());
        proof {
            assert(out@ =~= v@.subrange(0, i as int + 1));
        }
        i = i + 1;
    }
    proof {
        assert(v@.subrange(0, v@.len() as int) =~= v@);
    }
    out
}

/// A copy of a form, equal to the original in the model.
fn clone_form(f: &Form) -> (r: Form)
    ensures
        r@ == f@,
{
    let operands = clone_string_vec(&f.operands);
    let mut dialects: Vec<Dialect> = Vec::new();
    let mut i: usize = 0;
    while i < f.dialects.len()
        invariant
            i <= f.dialects@.len(),
            dialects@ =~= f.dialects@.subrange(0, i as int),
        decreases f.dialects@.len() - i,
    {
        dialects.push(f.dialects[i]);
        proof {
            assert(dialects@ =~= f.dialects@.subrange(0, i as int + 1));
        }
        i = i + 1;
    }
    proof {
        assert(dialects@ =~= f.dialects@);
    }
    let notes = match &f.notes {
        Some(s) => Some(clone_string(s)),
        None => None,
    };
    let r = Form { operands, dialects, notes };
    proof {
        assert(opt_view(r.notes) == opt_view(f.notes));
        assert(r@ =~= f@);
    }
    r
}

/// Restricts the instruction's forms to those recognized by an enabled
/// dialect, as [`spec_filter_targets`] describes.  The instruction record
/// itself is always kept, even when every form is removed.
pub fn filter_targets(instruction: &Instruction, config: &TargetConfig) -> (r: Instruction)
    ensures
        r@ == spec_filter_targets(instruction@, config@),
{
    broadcast use vstd::prelude::Seq::lemma_filter_push;

    let mut forms: Vec<Form> = Vec::new();
    let mut k: usize = 0;
    proof {
        let all = forms_views(instruction.forms@);
        assert(all.subrange(0, 0) =~= Seq::<FormV>::empty());
        reveal(Seq::filter);
        assert(forms_views(forms@) =~= all.subrange(0, 0).filter(enabled_pred(config@)));
    }
    while k < instruction.forms.len()
        invariant
            k <= instruction.forms@.len(),
            forms_views(forms@) == forms_views(instruction.forms@).subrange(0, k as int).filter(
                enabled_pred(config@),
            ),
        decreases instruction.forms@.len() - k,
    {
        broadcast use vstd::prelude::Seq::lemma_filter_push;

        let f = &instruction.forms[k];
        proof {
            let all = forms_views(instruction.forms@);
            assert(all.subrange(0, k as int).push(all[k as int]) =~= all.subrange(0, k as int + 1));
        }
        if form_has_enabled(f, config) {
            let copy = clone_form(f);
            forms.push(copy);
            proof {
                let all = forms_views(instruction.forms@);
                assert(forms_views(forms@) =~= forms_views(forms@.drop_last()).push(copy@));
                assert(enabled_pred(config@)(all[k as int]));
                assert(forms_views(forms@) =~= all.subrange(0, k as int + 1).filter(
                    enabled_pred(config@),
                ));
            }
        } else {
            proof {
                let all = forms_views(instruction.forms@);
                assert(!enabled_pred(config@)(all[k as int]));
                assert(forms_views(forms@) =~= all.subrange(0, k as int + 1).filter(
                    enabled_pred(config@),
                ));
            }
        }
        k = k + 1;
    }
    proof {
        let all = forms_views(instruction.forms@);
        assert(all.subrange(0, all.len() as int) =~= all);
    }
    let r = Instruction {
        name: clone_string(&instruction.name),
        arch: instruction.arch,
        summary: clone_string(&instruction.summary),
        forms,
    };
    proof {
        assert(r@ =~= spec_filter_targets(instruction@, config@));
    }
    r
}

/// With every dialect enabled, filtering is a no-op on well-formed forms:
/// every form is kept, so the form count is preserved.
pub proof fn lemma_filter_all_enabled(i: InstructionV, cfg: TargetConfigV)
    requires
        forall|k: int| 0 <= k < i.forms.len() ==> form_wf(#[trigger] i.forms[k]),
        cfg.assemblers.contains(Dialect::Gas),
        cfg.assemblers.contains(Dialect::Go),
    ensures
        spec_filter_targets(i, cfg).forms == i.forms,
{
    assert forall|k: int| 0 <= k < i.forms.len() implies enabled_pred(cfg)(#[trigger] i.forms[k]) by {
        let f = i.forms[k];
        assert(f.dialects.len() >= 1);
        match f.dialects[0] {
            Dialect::Gas => assert(cfg.assemblers.contains(f.dialects[0])),
            Dialect::Go => assert(cfg.assemblers.contains(f.dialects[0])),
        }
    }
    lemma_filter_all_true(i.forms, enabled_pred(cfg));
}

/// Filtering keeps a sequence unchanged when the predicate holds of every
/// element.
proof fn lemma_filter_all_true(s: Seq<FormV>, p: spec_fn(FormV) -> bool)
    requires
        forall|k: int| 0 <= k < s.len() ==> p(#[trigger] s[k]),
    ensures
        s.filter(p) == s,
    decreases s.len(),
{
    reveal(Seq::filter);
    if s.len() > 0 {
        lemma_filter_all_true(s.drop_last(), p);
        assert(s.drop_last().filter(p).push(s.last()) =~= s);
    }
}

/// With zero dialects enabled, filtering leaves zero forms.
pub proof fn lemma_filter_none_enabled(i: InstructionV, cfg: TargetConfigV)
    requires
        cfg.assemblers.len() == 0,
    ensures
        spec_filter_targets(i, cfg).forms.len() == 0,
{
    assert forall|k: int| 0 <= k < i.forms.len() implies !enabled_pred(cfg)(#[trigger] i.forms[k]) by {
        let f = i.forms[k];
        assert forall|j: int| 0 <= j < f.dialects.len() implies !cfg.assemblers.contains(
            #[trigger] f.dialects[j],
        ) by {
            if cfg.assemblers.contains(f.dialects[j]) {
                let w = choose|w: int|
                    0 <= w < cfg.assemblers.len() && cfg.assemblers[w] == f.dialects[j];
                assert(false);
            }
        }
    }
    i.forms.lemma_all_neg_filter_empty(enabled_pred(cfg));
}

} // verus!
