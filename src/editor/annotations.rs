//! Notes that collaborators attach to lines of the document.

use vstd::prelude::*;

verus! {

/// A note attached to a line of the document.
#[derive(Debug, Clone)]
pub struct Annotation {
    pub user: String,
    pub content: String,
    pub line_number: usize,
    pub timestamp: String,
}

/// The annotations of line `line`, in the order they were added.
pub open spec fn on_line(s: Seq<Annotation>, line: usize) -> Seq<Annotation>
    decreases s.len(),
{
    if s.len() == 0 {
        Seq::empty()
    } else if s.last().line_number == line {
        on_line(s.drop_last(), line).push(s.last())
    } else {
        on_line(s.drop_last(), line)
    }
}

/// Every annotation made so far, oldest first.
pub struct AnnotationManager {
    annotations: Vec<Annotation>,
}

impl View for AnnotationManager {
    type V = Seq<Annotation>;

    closed spec fn view(&self) -> Seq<Annotation> {
        self.annotations@
    }
}

impl AnnotationManager {
    /// No annotations.
    pub fn new() -> (r: Self)
        ensures
            r@ == Seq::<Annotation>::empty(),
    {
        Self { annotations: Vec::new() }
    }

    /// Records an annotation.
    pub fn add_annotation(&mut self, annotation: Annotation)
        ensures
            final(self)@ == old(self)@.push(annotation),
    {
        self.annotations.push(annotation);
    }

    /// The annotations of line `line_number`, oldest first.
    pub fn get_annotations_for_line(&self, line_number: usize) -> (r: Vec<&Annotation>)
        ensures
            r@.map_values(|a: &Annotation| *a) == on_line(self@, line_number),
    {
        let mut out: Vec<&Annotation> = Vec::new();
        let mut i: usize = 0;
        while i < self.annotations.len()
            invariant
                0 <= i <= self.annotations@.len(),
                out@.map_values(|a: &Annotation| *a) == on_line(self@.subrange(0, i as int), line_number),
            decreases self.annotations@.len() - i,
        {
            let ghost prev = out@;
            let a = &self.annotations[i];
            proof {
                let sub = self@.subrange(0, i + 1);
                assert(sub.drop_last() =~= self@.subrange(0, i as int));
                assert(sub.last() == *a);
            }
            if a.line_number == line_number {
                out.push(a);
                proof {
                    assert(out@.map_values(|a: &Annotation| *a) =~= prev.map_values(|a: &Annotation| *a).push(*a));
                }
            }
            i += 1;
        }
        proof {
            assert(self@.subrange(0, self@.len() as int) =~= self@);
        }
        out
    }
}

} // verus!
