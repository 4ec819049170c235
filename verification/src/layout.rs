//! An ordered collection of memory sections, rendered together as one
//! linker-script `MEMORY` block.

use crate::section::spec_section_text;
use crate::section::MemorySection;
use crate::section::SectionView;
use vstd::prelude::*;
use vstd::string::StringExecFns;

verus! {

/// A linker-script `MEMORY` block: sections in insertion order.
/// Names are not deduplicated; duplicate names render as duplicate
/// entries.
pub struct Memory {
    sections: Vec<MemorySection>,
}

impl View for Memory {
    type V = Seq<SectionView>;

    closed spec fn view(&self) -> Seq<SectionView> {
        Seq::new(self.sections@.len(), |i: int| self.sections@[i]@)
    }
}

/// The concatenation of the rendered lines of `sections`, in order.
pub open spec fn spec_sections_text(sections: Seq<SectionView>) -> Seq<char>
    decreases sections.len(),
{
    if sections.len() == 0 {
        Seq::empty()
    } else {
        spec_sections_text(sections.drop_last()) + spec_section_text(sections.last())
    }
}

/// The full rendering of a layout: `MEMORY\n{\n`, one line per
/// section, `}\n`.
pub open spec fn spec_memory_text(sections: Seq<SectionView>) -> Seq<char> {
    "MEMORY\n{\n"@ + spec_sections_text(sections) + "}\n"@
}

impl Memory {
    /// An empty layout.
    pub fn new() -> (r: Memory)
        ensures
            r@ == Seq::<SectionView>::empty(),
    {
        let r = Memory { sections: Vec::new() };
        proof {
            assert(r@ =~= Seq::<SectionView>::empty());
        }
        r
    }

    /// The layout with `section` appended after all existing sections.
    pub fn add_section(self, section: MemorySection) -> (r: Memory)
        ensures
            r@ == self@.push(section@),
    {
        let mut sections = self.sections;
        sections.push(section);
        let r = Memory { sections };
        proof {
            assert(r@ =~= self@.push(section@));
        }
        r
    }

    /// The rendered `MEMORY` block.  The text depends on the sections
    /// alone, so rendering the same layout twice yields identical
    /// text.
    pub fn to_string(&self) -> (r: String)
        ensures
            r@ == spec_memory_text(self@),
    {
        let mut out = String::from_str("MEMORY\n{\n");
        proof {
            assert(out@ =~= "MEMORY\n{\n"@ + spec_sections_text(self@.take(0)));
        }
        let mut i: usize = 0;
        while i < self.sections.len()
            invariant
                i <= self.sections.len(),
                self@.len() == self.sections.len(),
                forall|j: int|
                    0 <= j < self.sections@.len() ==> self@[j] == #[trigger] self.sections@[j]@,
                out@ == "MEMORY\n{\n"@ + spec_sections_text(self@.take(i as int)),
            decreases self.sections.len() - i,
        {
            let line = self.sections[i].to_string();
            out.append(line.as_str());
            i = i + 1;
            proof {
                assert(self@.take(i as int).drop_last() =~= self@.take(i - 1));
                assert(out@ =~= "MEMORY\n{\n"@ + spec_sections_text(self@.take(i as int)));
            }
        }
        out.append("}\n");
        proof {
            assert(self@.take(self@.len() as int) =~= self@);
            assert(out@ =~= spec_memory_text(self@));
        }
        out
    }
}

/// Rendering is deterministic: any two renderings of the same layout
/// are byte-identical, because the text is a function of the sections
/// alone.
pub proof fn lemma_render_deterministic(m: Memory, first: String, second: String)
    requires
        first@ == spec_memory_text(m@),
        second@ == spec_memory_text(m@),
    ensures
        first@ == second@,
{
}

} // verus!
