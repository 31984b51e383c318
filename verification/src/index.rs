//! The instruction index: one arena owning every indexed instruction, and
//! a list of integer handles into it.  The model is a map from
//! (architecture, lowercase mnemonic) to the instruction stored last under
//! that key.  Only instructions with at least one form are ever indexed.

use vstd::prelude::*;

use crate::instr::{Arch, Instruction, InstructionV};
use crate::text::{eq_ignore_case, lower_seq};

verus! {

/// The models of a sequence of instructions.
pub open spec fn instr_views(v: Seq<Instruction>) -> Seq<InstructionV> {
    v.map_values(|x: Instruction| x@)
}

/// The index key of an instruction: its architecture and its mnemonic
/// folded to lowercase.
pub open spec fn spec_key(iv: InstructionV) -> (Arch, Seq<char>) {
    (iv.arch, lower_seq(iv.name))
}

/// One insertion step: an instruction with at least one form is stored
/// under its key, replacing an earlier holder of the key; an instruction
/// reduced to zero forms is excluded.
pub open spec fn spec_insert(
    m: Map<(Arch, Seq<char>), InstructionV>,
    iv: InstructionV,
) -> Map<(Arch, Seq<char>), InstructionV> {
    if iv.forms.len() >= 1 {
        m.insert(spec_key(iv), iv)
    } else {
        m
    }
}

/// The map after inserting every instruction of `ivs` in order.
pub open spec fn spec_populate(
    m: Map<(Arch, Seq<char>), InstructionV>,
    ivs: Seq<InstructionV>,
) -> Map<(Arch, Seq<char>), InstructionV>
    decreases ivs.len(),
{
    if ivs.len() == 0 {
        m
    } else {
        spec_populate(spec_insert(m, ivs[0]), ivs.drop_first())
    }
}

/// The mapping from (architecture, lowercase mnemonic) to instruction
/// documentation.  It owns the instruction storage; lookups hand out
/// references into it.
pub struct NameToInstructionMap {
    instructions: Vec<Instruction>,
    entries: Vec<usize>,
}

impl NameToInstructionMap {
    /// The key of the entry at position `k`.
    closed spec fn key_at(self, k: int) -> (Arch, Seq<char>) {
        spec_key(self.instructions@[self.entries@[k] as int]@)
    }

    /// The map described by the first `n` entries, later entries winning.
    closed spec fn map_of(arena: Seq<Instruction>, entries: Seq<usize>) -> Map<
        (Arch, Seq<char>),
        InstructionV,
    >
        decreases entries.len(),
    {
        if entries.len() == 0 {
            Map::empty()
        } else {
            let h = entries.last() as int;
            Self::map_of(arena, entries.drop_last()).insert(
                spec_key(arena[h]@),
                arena[h]@,
            )
        }
    }

    /// Every handle points into the arena, at an instruction that kept at
    /// least one form.
    pub closed spec fn wf(self) -> bool {
        forall|k: int|
            0 <= k < self.entries@.len() ==> (#[trigger] self.entries@[k]) < self.instructions@.len()
                && self.instructions@[self.entries@[k] as int]@.forms.len() >= 1
    }

    /// The model of the index.
    pub closed spec fn view(self) -> Map<(Arch, Seq<char>), InstructionV> {
        Self::map_of(self.instructions@, self.entries@)
    }

    /// An empty index.
    pub fn new() -> (r: NameToInstructionMap)
        ensures
            r.wf(),
            r@ == Map::<(Arch, Seq<char>), InstructionV>::empty(),
    {
        NameToInstructionMap { instructions: Vec::new(), entries: Vec::new() }
    }

    /// Extending the arena does not change the map of existing entries.
    proof fn lemma_arena_extend(arena: Seq<Instruction>, arena2: Seq<Instruction>, entries: Seq<usize>)
        requires
            forall|k: int| 0 <= k < entries.len() ==> (#[trigger] entries[k]) < arena.len(),
            arena.len() <= arena2.len(),
            forall|h: int| 0 <= h < arena.len() ==> arena2[h] == arena[h],
        ensures
            Self::map_of(arena2, entries) == Self::map_of(arena, entries),
        decreases entries.len(),
    {
        if entries.len() > 0 {
            Self::lemma_arena_extend(arena, arena2, entries.drop_last());
        }
    }

    /// Stores one instruction under its key; the last stored instruction
    /// for a key wins.
    fn insert_instruction(&mut self, instruction: Instruction)
        requires
            old(self).wf(),
            instruction@.forms.len() >= 1,
        ensures
            final(self).wf(),
            final(self)@ == spec_insert(old(self)@, instruction@),
    {
        let ghost iv = instruction@;
        let handle = self.instructions.len();
        self.instructions.push(instruction);
        proof {
            Self::lemma_arena_extend(
                old(self).instructions@,
                self.instructions@,
                old(self).entries@,
            );
        }
        self.entries.push(handle);
        proof {
            assert(self.entries@.drop_last() =~= old(self).entries@);
            assert(self.instructions@[handle as int]@ == iv);
            assert(self@ == Self::map_of(self.instructions@, old(self).entries@).insert(
                spec_key(iv),
                iv,
            ));
            assert(self@ == spec_insert(old(self)@, iv));
        }
    }

    /// Looks a mnemonic up under one architecture.  The match is exact up
    /// to ASCII case: the result is the instruction stored under
    /// (architecture, lowercase mnemonic), or nothing when the key is
    /// absent.
    pub fn get(&self, arch: Arch, name: &str) -> (r: Option<&Instruction>)
        requires
            self.wf(),
        ensures
            match r {
                Option::Some(ins) => self@.contains_key((arch, lower_seq(name@)))
                    && ins@ == self@[(arch, lower_seq(name@))] && ins@.forms.len() >= 1,
                Option::None => !self@.contains_key((arch, lower_seq(name@))),
            },
    {
        let ghost q = (arch, lower_seq(name@));
        let mut j: usize = self.entries.len();
        proof {
            assert(self.entries@.subrange(0, j as int) =~= self.entries@);
        }
        while j > 0
            invariant
                self.wf(),
                q == (arch, lower_seq(name@)),
                j <= self.entries@.len(),
                self@.contains_key(q) == Self::map_of(
                    self.instructions@,
                    self.entries@.subrange(0, j as int),
                ).contains_key(q),
                self@.contains_key(q) ==> self@[q] == Self::map_of(
                    self.instructions@,
                    self.entries@.subrange(0, j as int),
                )[q],
            decreases j,
        {
            let k = j - 1;
            let h = self.entries[k];
            let candidate = &self.instructions[h];
            proof {
                let sub = self.entries@.subrange(0, j as int);
                assert(sub.last() == self.entries@[k as int]);
                assert(sub.drop_last() =~= self.entries@.subrange(0, k as int));
                assert(Self::map_of(self.instructions@, sub) == Self::map_of(
                    self.instructions@,
                    sub.drop_last(),
                ).insert(spec_key(candidate@), candidate@));
            }
            if arch == candidate.arch && eq_ignore_case(name, candidate.name.as_str()) {
                proof {
                    assert(candidate@.arch == arch);
                    assert(lower_seq(candidate@.name) == lower_seq(name@));
                    assert(spec_key(candidate@) =~= q);
                }
                return Some(candidate);
            }
            proof {
                if spec_key(candidate@) == q {
                    assert(candidate@.arch == arch);
                    assert(lower_seq(candidate@.name) == lower_seq(name@));
                    assert(false);
                }
            }
            j = k;
        }
        proof {
            assert(self.entries@.subrange(0, 0) =~= Seq::<usize>::empty());
        }
        None
    }
}

/// Inserts every surviving instruction of one architecture into the
/// index, under (architecture, lowercase mnemonic), in order; for a
/// repeated key the last insertion wins.  Instructions reduced to zero
/// forms are excluded here, at the boundary into the index, and never
/// stored.
pub fn populate_name_to_instruction_map(
    arch: Arch,
    instructions: Vec<Instruction>,
    map: &mut NameToInstructionMap,
)
    requires
        old(map).wf(),
        forall|i: int|
            0 <= i < instructions@.len() ==> (#[trigger] instructions@[i])@.arch == arch,
    ensures
        final(map).wf(),
        final(map)@ == spec_populate(old(map)@, instr_views(instructions@)),
{
    let ghost all = instr_views(instructions@);
    let mut rest = instructions;
    while rest.len() > 0
        invariant
            map.wf(),
            spec_populate(old(map)@, all) == spec_populate(map@, instr_views(rest@)),
        decreases rest@.len(),
    {
        let ghost before = instr_views(rest@);
        let ghost m_prev = map@;
        let instruction = rest.remove(0);
        let ghost iv0 = instruction@;
        proof {
            assert(instr_views(rest@) =~= before.drop_first());
            assert(before[0] == iv0);
        }
        if instruction.forms.len() > 0 {
            map.insert_instruction(instruction);
        }
        proof {
            assert(map@ == spec_insert(m_prev, iv0));
            assert(spec_populate(m_prev, before) == spec_populate(map@, instr_views(rest@)));
        }
    }
    proof {
        assert(instr_views(rest@) =~= Seq::<InstructionV>::empty());
    }
}

/// Instructions reduced to zero forms are excluded from indexing
/// entirely: populating with only such instructions leaves the index
/// unchanged, so no "empty" entry is ever stored.
pub proof fn lemma_populate_empty_forms(
    m: Map<(Arch, Seq<char>), InstructionV>,
    ivs: Seq<InstructionV>,
)
    requires
        forall|i: int| 0 <= i < ivs.len() ==> (#[trigger] ivs[i]).forms.len() == 0,
    ensures
        spec_populate(m, ivs) == m,
    decreases ivs.len(),
{
    if ivs.len() > 0 {
        assert(ivs[0].forms.len() == 0);
        lemma_populate_empty_forms(m, ivs.drop_first());
    }
}

/// Inserting never removes a key: whatever the map held is still held
/// after populating it further.
pub proof fn lemma_populate_preserves_keys(
    m: Map<(Arch, Seq<char>), InstructionV>,
    ivs: Seq<InstructionV>,
    q: (Arch, Seq<char>),
)
    requires
        m.contains_key(q),
    ensures
        spec_populate(m, ivs).contains_key(q),
    decreases ivs.len(),
{
    if ivs.len() > 0 {
        lemma_populate_preserves_keys(spec_insert(m, ivs[0]), ivs.drop_first(), q);
    }
}

/// Every instruction that survives filtering with at least one form is
/// found in the populated index under its own key.
pub proof fn lemma_populate_contains(
    m: Map<(Arch, Seq<char>), InstructionV>,
    ivs: Seq<InstructionV>,
    i: int,
)
    requires
        0 <= i < ivs.len(),
        ivs[i].forms.len() >= 1,
    ensures
        spec_populate(m, ivs).contains_key(spec_key(ivs[i])),
    decreases ivs.len(),
{
    if i == 0 {
        lemma_populate_preserves_keys(spec_insert(m, ivs[0]), ivs.drop_first(), spec_key(ivs[0]));
    } else {
        lemma_populate_contains(spec_insert(m, ivs[0]), ivs.drop_first(), i - 1);
        assert(ivs.drop_first()[i - 1] == ivs[i]);
    }
}

/// Populating with one architecture's instructions leaves every other
/// architecture's entries untouched: cross-architecture keys are
/// independent.
pub proof fn lemma_populate_other_arch(
    m: Map<(Arch, Seq<char>), InstructionV>,
    ivs: Seq<InstructionV>,
    arch: Arch,
    q: (Arch, Seq<char>),
)
    requires
        forall|i: int| 0 <= i < ivs.len() ==> (#[trigger] ivs[i]).arch == arch,
        q.0 != arch,
    ensures
        spec_populate(m, ivs).contains_key(q) == m.contains_key(q),
        m.contains_key(q) ==> spec_populate(m, ivs)[q] == m[q],
    decreases ivs.len(),
{
    if ivs.len() > 0 {
        assert(ivs[0].arch == arch);
        lemma_populate_other_arch(spec_insert(m, ivs[0]), ivs.drop_first(), arch, q);
    }
}

/// Case-insensitive lookup: two mnemonics that agree up to ASCII case
/// name the same index key, so they always return the same match.
pub proof fn lemma_lookup_case_insensitive(
    m: Map<(Arch, Seq<char>), InstructionV>,
    arch: Arch,
    a: Seq<char>,
    b: Seq<char>,
)
    requires
        lower_seq(a) == lower_seq(b),
    ensures
        m.contains_key((arch, lower_seq(a))) == m.contains_key((arch, lower_seq(b))),
        m.contains_key((arch, lower_seq(a))) ==> m[(arch, lower_seq(a))] == m[(
            arch,
            lower_seq(b),
        )],
{
}

} // verus!
