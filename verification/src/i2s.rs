//! Editing of the head of an instrument-control input file: a sparse set of
//! parameter overrides applied to the records of a template.

use vstd::prelude::*;
use vstd::string::*;

verus! {

/// What kind of record a line of the input file is.
#[derive(Clone, Copy, Debug, PartialEq, Eq, Structural)]
pub enum I2SLineType {
    /// The line holds the value of the head parameter with this number.
    HeaderParam(usize),
    /// Any other line: a comment, a blank line, a row of the catalog.
    Other,
}

/// One record of the input file: its kind and its text as it stands in the
/// file, line ending included.
#[derive(Clone, Debug, PartialEq, Eq)]
pub struct I2SLine {
    pub line_type: I2SLineType,
    pub text: String,
}

/// One override: the number of a head parameter and the value to give it.
#[derive(Clone, Debug, PartialEq, Eq)]
pub struct I2SHeaderEdit {
    pub parameter: usize,
    pub value: String,
}

/// A set of overrides of head parameters, at most one per parameter.
#[derive(Clone, Debug, PartialEq, Eq)]
pub struct I2SInputModifications {
    /// The overrides in the order in which they were set; of two for the same
    /// parameter the later one counts.
    pub changes: Vec<I2SHeaderEdit>,
}

/// The overrides that a list of edits amounts to, a later edit replacing an
/// earlier one of the same parameter.
pub open spec fn edits_map(changes: Seq<I2SHeaderEdit>) -> Map<int, Seq<char>>
    decreases changes.len(),
{
    if changes.len() == 0 {
        Map::empty()
    } else {
        edits_map(changes.drop_last()).insert(
            changes.last().parameter as int,
            changes.last().value@,
        )
    }
}

/// A parameter that no edit names has no override.
pub proof fn lemma_edits_map_absent(changes: Seq<I2SHeaderEdit>, parameter: int)
    requires
        forall|j: int| 0 <= j < changes.len() ==> (#[trigger] changes[j]).parameter != parameter,
    ensures
        !edits_map(changes).dom().contains(parameter),
    decreases changes.len(),
{
    if changes.len() > 0 {
        let head = changes.drop_last();
        assert(forall|j: int| 0 <= j < head.len() ==> head[j] == changes[j]);
        lemma_edits_map_absent(head, parameter);
        assert(changes.last() == changes[changes.len() - 1]);
    }
}

/// The override of a parameter is the value of the last edit that names it.
pub proof fn lemma_edits_map_lookup(changes: Seq<I2SHeaderEdit>, parameter: int, i: int)
    requires
        0 <= i < changes.len(),
        changes[i].parameter == parameter,
        forall|j: int| i < j < changes.len() ==> (#[trigger] changes[j]).parameter != parameter,
    ensures
        edits_map(changes).dom().contains(parameter),
        edits_map(changes)[parameter] == changes[i].value@,
    decreases changes.len(),
{
    let head = changes.drop_last();
    if i < changes.len() - 1 {
        assert(forall|j: int| 0 <= j < head.len() ==> head[j] == changes[j]);
        lemma_edits_map_lookup(head, parameter, i);
        assert(changes.last() == changes[changes.len() - 1]);
    }
}

impl View for I2SInputModifications {
    type V = Map<int, Seq<char>>;

    /// The overrides as a map from parameter number to value.
    open spec fn view(&self) -> Map<int, Seq<char>> {
        edits_map(self.changes@)
    }
}

impl I2SInputModifications {
    /// No overrides.
    pub fn new() -> (r: Self)
        ensures
            r@ == Map::<int, Seq<char>>::empty(),
    {
        I2SInputModifications { changes: Vec::new() }
    }

    /// The overrides that a list of edits amounts to.
    pub fn from_edits(changes: Vec<I2SHeaderEdit>) -> (r: Self)
        ensures
            r@ == edits_map(changes@),
    {
        I2SInputModifications { changes }
    }

    /// Sets the override of a parameter, replacing the one it had.
    pub fn set_parameter_change(&mut self, parameter: usize, value: String)
        ensures
            final(self)@ == old(self)@.insert(parameter as int, value@),
    {
        let ghost before = self.changes@;
        self.changes.push(I2SHeaderEdit { parameter, value });
        assert(self.changes@.drop_last() == before);
    }

    /// The override for a record, if it is the line of a parameter that has
    /// one.
    pub fn change_line_opt(&self, line_type: I2SLineType) -> (r: Option<&String>)
        ensures
            match r {
                Some(value) => line_type matches I2SLineType::HeaderParam(p) && self@.dom().contains(
                    p as int,
                ) && value@ == self@[p as int],
                None => !(line_type matches I2SLineType::HeaderParam(p) && self@.dom().contains(
                    p as int,
                )),
            },
    {
        let parameter = match line_type {
            I2SLineType::HeaderParam(p) => p,
            I2SLineType::Other => {
                return None;
            },
        };
        let mut i = self.changes.len();
        while i > 0
            invariant
                i <= self.changes.len(),
                line_type == I2SLineType::HeaderParam(parameter),
                forall|j: int|
                    i <= j < self.changes.len() ==> (#[trigger] self.changes@[j]).parameter
                        != parameter,
            decreases i,
        {
            i -= 1;
            if self.changes[i].parameter == parameter {
                proof {
                    lemma_edits_map_lookup(self.changes@, parameter as int, i as int);
                }
                return Some(&self.changes[i].value);
            }
        }
        proof {
            lemma_edits_map_absent(self.changes@, parameter as int);
        }
        None
    }
}

/// The text that is written for a record under a set of overrides: the new
/// value and a line feed where the record is the line of an overridden
/// parameter, and else the record as it stands.
pub open spec fn emitted(line: I2SLine, edits: Map<int, Seq<char>>) -> Seq<char> {
    match line.line_type {
        I2SLineType::HeaderParam(p) => if edits.dom().contains(p as int) {
            edits[p as int] + seq!['\n']
        } else {
            line.text@
        },
        I2SLineType::Other => line.text@,
    }
}

/// `out` is the head `top` with the overrides `edits` applied: one record out
/// for each record in, in the same order.
pub open spec fn is_edited_head(out: Seq<String>, top: Seq<I2SLine>, edits: Map<int, Seq<char>>) -> bool {
    &&& out.len() == top.len()
    &&& forall|i: int| 0 <= i < top.len() ==> (#[trigger] out[i])@ == emitted(top[i], edits)
}

/// Applies a set of overrides to the records of a template head. Nothing is
/// inserted, dropped or moved: record `i` of the result stands for record `i`
/// of the template.
pub fn modify_i2s_head(top: &[I2SLine], edits: &I2SInputModifications) -> (out: Vec<String>)
    ensures
        is_edited_head(out@, top@, edits@),
{
    let mut out: Vec<String> = Vec::new();
    let mut i: usize = 0;
    while i < top.len()
        invariant
            i <= top.len(),
            out.len() == i,
            forall|j: int| 0 <= j < i ==> (#[trigger] out@[j])@ == emitted(top@[j], edits@),
        decreases top.len() - i,
    {
        let record = &top[i];
        let text = match edits.change_line_opt(record.line_type) {
            Some(value) => {
                proof {
                    reveal_strlit("\n");
                }
                let mut line = value.clone();
                line.append("\n");
                assert(line@ == value@ + seq!['\n']);
                line
            },
            None => record.text.clone(),
        };
        out.push(text);
        i += 1;
    }
    out
}

/// The records of a head as they stand.
pub open spec fn is_unchanged_head(out: Seq<String>, top: Seq<I2SLine>) -> bool {
    &&& out.len() == top.len()
    &&& forall|i: int| 0 <= i < top.len() ==> (#[trigger] out[i])@ == top[i].text@
}

/// Without overrides the template comes out as it went in, record for
/// record.
pub proof fn law_no_edits_reproduce_template(out: Seq<String>, top: Seq<I2SLine>)
    requires
        is_edited_head(out, top, Map::empty()),
    ensures
        is_unchanged_head(out, top),
{
    assert forall|i: int| 0 <= i < top.len() implies (#[trigger] out[i])@ == top[i].text@ by {
        assert(out[i]@ == emitted(top[i], Map::empty()));
    }
}

/// With one override, of parameter `k`, only the lines of parameter `k`
/// differ from the template, and they hold the new value and a line feed.
pub proof fn law_one_edit_changes_only_its_line(
    out: Seq<String>,
    top: Seq<I2SLine>,
    k: usize,
    value: Seq<char>,
)
    requires
        is_edited_head(out, top, Map::<int, Seq<char>>::empty().insert(k as int, value)),
    ensures
        out.len() == top.len(),
        forall|i: int|
            0 <= i < top.len() && top[i].line_type != I2SLineType::HeaderParam(k) ==> (
            #[trigger] out[i])@ == top[i].text@,
        forall|i: int|
            0 <= i < top.len() && top[i].line_type == I2SLineType::HeaderParam(k) ==> (
            #[trigger] out[i])@ == value + seq!['\n'],
{
    let edits = Map::<int, Seq<char>>::empty().insert(k as int, value);
    assert forall|i: int| 0 <= i < top.len() implies (top[i].line_type
        != I2SLineType::HeaderParam(k) ==> (#[trigger] out[i])@ == top[i].text@) && (
    top[i].line_type == I2SLineType::HeaderParam(k) ==> out[i]@ == value + seq!['\n']) by {
        assert(out[i]@ == emitted(top[i], edits));
    }
}

} // verus!
