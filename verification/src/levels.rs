//! Abstraction levels that guide how a plan is broken down.

use vstd::prelude::*;
use crate::text::join;

verus! {

/// An abstraction level: what it is about, the questions to ask at it, and
/// where attention belongs while working at it.
pub struct Level {
    description: String,
    questions: Vec<String>,
    abstraction_focus: String,
}

/// The mathematical content of a level.
pub struct LevelView {
    pub description: Seq<char>,
    pub questions: Seq<Seq<char>>,
    pub abstraction_focus: Seq<char>,
}

/// The texts of a list of strings.
pub open spec fn texts(v: Seq<String>) -> Seq<Seq<char>> {
    v.map_values(|s: String| s@)
}

impl View for Level {
    type V = LevelView;

    closed spec fn view(&self) -> LevelView {
        LevelView {
            description: self.description@,
            questions: texts(self.questions@),
            abstraction_focus: self.abstraction_focus@,
        }
    }
}

/// The guidance text of a level: its description, its focus, and its
/// questions as a bulleted list.
pub open spec fn guidance(l: LevelView) -> Seq<char> {
    "Abstraction level: "@ + l.description + "\n\nFocus instruction: "@ + l.abstraction_focus
        + "\n\nRelevant questions to consider:\n"@ + join(
        l.questions.map_values(|q: Seq<char>| "- "@ + q),
        "\n"@,
    )
}

fn clone_strings(v: &Vec<String>) -> (r: Vec<String>)
    ensures
        r@ == v@,
{
    let mut r: Vec<String> = Vec::new();
    let mut i: usize = 0;
    while i < v.len()
        invariant
            i <= v.len(),
            r@ == v@.take(i as int),
        decreases v.len() - i,
    {
        r.push(v[i].clone());
        proof {
            assert(v@.take(i + 1) =~= v@.take(i as int).push(v@[i as int]));
        }
        i = i + 1;
    }
    assert(v@.take(v.len() as int) =~= v@);
    r
}

impl Clone for Level {
    fn clone(&self) -> (r: Self)
        ensures
            r@ == self@,
    {
        Level {
            description: self.description.clone(),
            questions: clone_strings(&self.questions),
            abstraction_focus: self.abstraction_focus.clone(),
        }
    }
}

impl Level {
    /// Creates a new level.
    pub fn new(description: String, questions: Vec<String>, abstraction_focus: String) -> (l: Self)
        ensures
            l@ == (LevelView {
                description: description@,
                questions: texts(questions@),
                abstraction_focus: abstraction_focus@,
            }),
    {
        Level { description, questions, abstraction_focus }
    }

    /// Guidance for agents on how to work at this level.
    pub fn get_guidance(&self) -> (s: String)
        ensures
            s@ == guidance(self@),
    {
        let mut s = String::new();
        s.append("Abstraction level: ");
        s.append(self.description.as_str());
        s.append("\n\nFocus instruction: ");
        s.append(self.abstraction_focus.as_str());
        s.append("\n\nRelevant questions to consider:\n");
        let ghost start = s@;
        let ghost items = self@.questions.map_values(|q: Seq<char>| "- "@ + q);
        let mut i: usize = 0;
        while i < self.questions.len()
            invariant
                i <= self.questions.len(),
                items == self@.questions.map_values(|q: Seq<char>| "- "@ + q),
                items.len() == self.questions@.len(),
                s@ == start + join(items.take(i as int), "\n"@),
            decreases self.questions.len() - i,
        {
            proof {
                assert(items.take(i + 1).drop_last() =~= items.take(i as int));
                assert(items.take(i + 1).last() == "- "@ + self.questions@[i as int]@);
            }
            if i > 0 {
                s.append("\n");
            }
            s.append("- ");
            s.append(self.questions[i].as_str());
            i = i + 1;
        }
        assert(items.take(self.questions.len() as int) =~= items);
        s
    }

    /// The description of this level.
    pub fn description(&self) -> (s: &str)
        ensures
            s@ == self@.description,
    {
        self.description.as_str()
    }

    /// The questions of this level.
    pub fn questions(&self) -> (q: &[String])
        ensures
            texts(q@) == self@.questions,
    {
        self.questions.as_slice()
    }

    /// The abstraction focus of this level.
    pub fn abstraction_focus(&self) -> (s: &str)
        ensures
            s@ == self@.abstraction_focus,
    {
        self.abstraction_focus.as_str()
    }
}

/// The texts of the default planning level.
pub open spec fn plan_level_view() -> LevelView {
    LevelView {
        description: "high level planning; identifying architecture, scope, and approach"@,
        questions: seq![
            "Is this approach simple?"@,
            "Is this approach extensible?"@,
            "Does this approach provide good, minimally leaking abstractions?"@,
        ],
        abstraction_focus: "Maintain altitude by focusing on system wholes. Avoid implementation details. Think about conceptual patterns rather than code structures. Consider how components will interact without specifying their internal workings."@,
    }
}

/// The texts of the default isolation level.
pub open spec fn isolation_level_view() -> LevelView {
    LevelView {
        description: "Identifying discrete parts of the plan which can be completed independently"@,
        questions: seq![
            "If possible, can each part be completed and verified independently"@,
            "Are the boundaries between pieces modular and extensible?"@,
        ],
        abstraction_focus: "Focus on interfaces and boundaries between components. Define clear inputs and outputs for each part. Identify dependencies while preserving modularity. Look for natural divisions in the problem space."@,
    }
}

/// The texts of the default ordering level.
pub open spec fn ordering_level_view() -> LevelView {
    LevelView {
        description: "Ordering the parts of the plan"@,
        questions: seq![
            "Do we move from foundational building blocks to more complex concepts?"@,
            "Do we follow idiomatic design patterns?"@,
        ],
        abstraction_focus: "Think about sequence and progression. Identify dependencies and build order without diving into implementation details. Consider critical paths and bottlenecks. Focus on logical flow and execution constraints."@,
    }
}

/// The texts of the default implementation level.
pub open spec fn implementation_level_view() -> LevelView {
    LevelView {
        description: "Turning each part into an ordered list of tasks"@,
        questions: seq![
            "Can each task be completed independently?"@,
            "Is each task complimentary to, or does it build upon, the previous tasks?"@,
            "Does each task minimize the execution risk of the other tasks?"@,
        ],
        abstraction_focus: "Focus on concrete, actionable steps. Define specific code changes or artifacts to produce. Reference higher abstractions when needed but maintain focus on precise implementation. Consider error cases and edge conditions."@,
    }
}

/// The default levels, from the most abstract to the most concrete.
pub open spec fn default_levels_view() -> Seq<LevelView> {
    seq![plan_level_view(), isolation_level_view(), ordering_level_view(), implementation_level_view()]
}

/// The default planning level.
pub fn plan_level() -> (l: Level)
    ensures
        l@ == plan_level_view(),
{
    let questions = vec![
        String::from_str("Is this approach simple?"),
        String::from_str("Is this approach extensible?"),
        String::from_str("Does this approach provide good, minimally leaking abstractions?"),
    ];
    assert(texts(questions@) =~= plan_level_view().questions);
    Level {
        description: String::from_str("high level planning; identifying architecture, scope, and approach"),
        questions,
        abstraction_focus: String::from_str("Maintain altitude by focusing on system wholes. Avoid implementation details. Think about conceptual patterns rather than code structures. Consider how components will interact without specifying their internal workings."),
    }
}

/// The default isolation level.
pub fn isolation_level() -> (l: Level)
    ensures
        l@ == isolation_level_view(),
{
    let questions = vec![
        String::from_str("If possible, can each part be completed and verified independently"),
        String::from_str("Are the boundaries between pieces modular and extensible?"),
    ];
    assert(texts(questions@) =~= isolation_level_view().questions);
    Level {
        description: String::from_str("Identifying discrete parts of the plan which can be completed independently"),
        questions,
        abstraction_focus: String::from_str("Focus on interfaces and boundaries between components. Define clear inputs and outputs for each part. Identify dependencies while preserving modularity. Look for natural divisions in the problem space."),
    }
}

/// The default ordering level.
pub fn ordering_level() -> (l: Level)
    ensures
        l@ == ordering_level_view(),
{
    let questions = vec![
        String::from_str("Do we move from foundational building blocks to more complex concepts?"),
        String::from_str("Do we follow idiomatic design patterns?"),
    ];
    assert(texts(questions@) =~= ordering_level_view().questions);
    Level {
        description: String::from_str("Ordering the parts of the plan"),
        questions,
        abstraction_focus: String::from_str("Think about sequence and progression. Identify dependencies and build order without diving into implementation details. Consider critical paths and bottlenecks. Focus on logical flow and execution constraints."),
    }
}

/// The default implementation level.
pub fn implementation_level() -> (l: Level)
    ensures
        l@ == implementation_level_view(),
{
    let questions = vec![
        String::from_str("Can each task be completed independently?"),
        String::from_str("Is each task complimentary to, or does it build upon, the previous tasks?"),
        String::from_str("Does each task minimize the execution risk of the other tasks?"),
    ];
    assert(texts(questions@) =~= implementation_level_view().questions);
    Level {
        description: String::from_str("Turning each part into an ordered list of tasks"),
        questions,
        abstraction_focus: String::from_str("Focus on concrete, actionable steps. Define specific code changes or artifacts to produce. Reference higher abstractions when needed but maintain focus on precise implementation. Consider error cases and edge conditions."),
    }
}

/// The default set of levels for planning.
pub fn default_levels() -> (v: Vec<Level>)
    ensures
        v@.map_values(|l: Level| l@) == default_levels_view(),
{
    let v = vec![plan_level(), isolation_level(), ordering_level(), implementation_level()];
    assert(v@.map_values(|l: Level| l@) =~= default_levels_view());
    v
}

} // verus!
