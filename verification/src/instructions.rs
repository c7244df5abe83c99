//! The key instructions that a screen documents in the help dialog.

use vstd::prelude::*;

verus! {

/// One documented key binding.
pub struct InstructionDetail {
    pub keys: String,
    pub description: String,
}

/// A titled group of key bindings.
pub struct InstructionCategory {
    pub name: String,
    pub details: Vec<InstructionDetail>,
}

/// Everything a screen documents.
pub struct ScreenInstructions {
    pub categories: Vec<InstructionCategory>,
}

impl ScreenInstructions {
    /// No instructions.
    pub fn empty() -> (s: Self)
        ensures
            s.categories@.len() == 0,
    {
        ScreenInstructions { categories: Vec::new() }
    }
}

/// The number of text lines the instructions take in the help dialog: per
/// category its name, a blank line, one line per binding and a blank line.
pub open spec fn instruction_lines(categories: Seq<InstructionCategory>) -> nat
    decreases categories.len(),
{
    if categories.len() == 0 {
        0
    } else {
        instruction_lines(categories.drop_last()) + categories.last().details@.len() + 3
    }
}

/// Counts the text lines of the instructions.
pub fn count_instruction_lines(instructions: &ScreenInstructions) -> (r: usize)
    requires
        instruction_lines(instructions.categories@) <= usize::MAX,
    ensures
        r == instruction_lines(instructions.categories@),
{
    let ghost cats = instructions.categories@;
    let mut total: usize = 0;
    let mut i: usize = 0;
    while i < instructions.categories.len()
        invariant
            cats == instructions.categories@,
            instruction_lines(cats) <= usize::MAX,
            i <= cats.len(),
            total == instruction_lines(cats.take(i as int)),
        decreases cats.len() - i,
    {
        proof {
            assert(cats.take(i + 1).drop_last() =~= cats.take(i as int));
            lemma_instruction_lines_prefix(cats, i + 1);
        }
        total = total + instructions.categories[i].details.len() + 3;
        i += 1;
    }
    proof {
        assert(cats.take(cats.len() as int) =~= cats);
    }
    total
}

proof fn lemma_instruction_lines_prefix(cats: Seq<InstructionCategory>, n: int)
    requires
        0 <= n <= cats.len(),
    ensures
        instruction_lines(cats.take(n)) <= instruction_lines(cats),
    decreases cats.len() - n,
{
    if n < cats.len() {
        lemma_instruction_lines_prefix(cats, n + 1);
        assert(cats.take(n + 1).drop_last() =~= cats.take(n));
    } else {
        assert(cats.take(n) =~= cats);
    }
}

} // verus!
