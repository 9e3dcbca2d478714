//! Paths, as the steps that lead to them.
use vstd::prelude::*;
use vstd::string::*;

verus! {

/// A step on the way to a file or directory. What it comes to is for the platform
/// to say, by its own rules for paths.
#[derive(Debug)]
pub enum PathStep {
    /// To the path in the text, seen from here.
    Into(String),
    /// To what has the same name with the text at its end, in the same directory.
    Beside(String),
}

/// A path: from nowhere, one step after the other.
#[derive(Debug)]
pub struct FilePath {
    pub steps: Vec<PathStep>,
}

/// A step, by its text.
pub enum Step {
    Into(Seq<char>),
    Beside(Seq<char>),
}

impl View for PathStep {
    type V = Step;

    open spec fn view(&self) -> Step {
        match self {
            PathStep::Into(t) => Step::Into(t@),
            PathStep::Beside(t) => Step::Beside(t@),
        }
    }
}

impl View for FilePath {
    type V = Seq<Step>;

    open spec fn view(&self) -> Seq<Step> {
        self.steps@.map_values(|s: PathStep| s@)
    }
}

/// The path that is written `text`.
pub open spec fn path_of(text: Seq<char>) -> Seq<Step> {
    seq![Step::Into(text)]
}

/// The path written `text`, seen from the directory `base`.
pub open spec fn path_joined(base: Seq<Step>, text: Seq<char>) -> Seq<Step> {
    base.push(Step::Into(text))
}

/// What stands beside `path`, with `suffix` at the end of its name.
pub open spec fn sibling_of(path: Seq<Step>, suffix: Seq<char>) -> Seq<Step> {
    path.push(Step::Beside(suffix))
}

/// The path, if there is one.
pub open spec fn path_in(p: Option<FilePath>) -> Option<Seq<Step>> {
    match p {
        Some(p) => Some(p@),
        None => None,
    }
}

impl PathStep {
    fn duplicate(&self) -> (r: PathStep)
        ensures
            r@ == self@,
    {
        match self {
            PathStep::Into(t) => PathStep::Into(t.clone()),
            PathStep::Beside(t) => PathStep::Beside(t.clone()),
        }
    }
}

impl FilePath {
    /// The path that is written `text`.
    pub fn new(text: &str) -> (r: FilePath)
        ensures
            r@ == path_of(text@),
    {
        let mut steps: Vec<PathStep> = Vec::new();
        steps.push(PathStep::Into(text.to_string()));
        let r = FilePath { steps };
        assert(r@ =~= path_of(text@));
        r
    }

    /// A copy.
    pub fn duplicate(&self) -> (r: FilePath)
        ensures
            r@ == self@,
    {
        let mut steps: Vec<PathStep> = Vec::new();
        let mut i: usize = 0;
        while i < self.steps.len()
            invariant
                i <= self.steps@.len(),
                steps@.len() == i,
                forall|j: int| 0 <= j < i ==> (#[trigger] steps@[j])@ == self.steps@[j]@,
            decreases self.steps.len() - i,
        {
            steps.push(self.steps[i].duplicate());
            i = i + 1;
        }
        let r = FilePath { steps };
        assert(r@ =~= self@);
        r
    }

    fn then_step(&self, step: PathStep) -> (r: FilePath)
        ensures
            r@ == self@.push(step@),
    {
        let mut r = self.duplicate();
        let ghost was = r@;
        r.steps.push(step);
        assert(r@ =~= was.push(step@));
        r
    }

    /// The path written `text`, seen from this directory.
    pub fn join(&self, text: &str) -> (r: FilePath)
        ensures
            r@ == path_joined(self@, text@),
    {
        self.then_step(PathStep::Into(text.to_string()))
    }

    /// What stands beside, with `suffix` at the end of its name.
    pub fn sibling(&self, suffix: &str) -> (r: FilePath)
        ensures
            r@ == sibling_of(self@, suffix@),
    {
        self.then_step(PathStep::Beside(suffix.to_string()))
    }
}

/// What stands beside a path is another path, and so is what is in it.
pub proof fn law_steps_lead_on(path: Seq<Step>, text: Seq<char>)
    ensures
        sibling_of(path, text) != path,
        path_joined(path, text) != path,
        sibling_of(path, text) != path_joined(path, text),
{
    assert(sibling_of(path, text).len() == path.len() + 1);
    assert(sibling_of(path, text).last() != path_joined(path, text).last());
}

/// A path is the steps that lead to it, in order.
pub proof fn law_steps_in_order(a: Seq<char>, b: Seq<char>, suffix: Seq<char>)
    ensures
        path_of(a) == seq![Step::Into(a)],
        path_joined(path_of(a), b) == seq![Step::Into(a), Step::Into(b)],
        sibling_of(path_joined(path_of(a), b), suffix) == seq![
            Step::Into(a),
            Step::Into(b),
            Step::Beside(suffix),
        ],
{
}

/// A path that may be missing holds its steps, or none.
pub proof fn law_path_held(p: Option<FilePath>)
    ensures
        path_in(p) is Some <==> p is Some,
        p is Some ==> path_in(p) == Some(p.unwrap()@),
{
}

} // verus!
