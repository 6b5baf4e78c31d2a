//! Run or raise: find the window of an application and focus or kill it, or
//! launch the application where it has no window.

use vstd::prelude::*;
use vstd::string::StringExecFns;
use crate::path::text_of;
use crate::text::concat3;
use crate::text::decimal;
use crate::text::decimal_of;
use crate::tree::Node;
use crate::tree::NodeView;
use crate::tree::fits;
use crate::tree::views;

verus! {

/// What to do with the application's window where it has one.
#[derive(Clone, Copy, Debug, PartialEq, Eq, Structural)]
pub enum Instruction {
    Focus,
    Kill,
}

/// Why there is nothing to do.
#[derive(Clone, Copy, Debug, PartialEq, Eq, Structural)]
pub enum RunOrError {
    /// Neither a class nor a title describes the window.
    NoCriteria,
}

impl RunOrError {
    /// What this error says to the user.
    pub fn message(&self) -> (r: String)
        ensures
            r@ == "Neither a window class nor a window title is given."@,
    {
        String::from_str("Neither a window class nor a window title is given.")
    }
}

/// The command to run.
#[derive(Clone, Debug, PartialEq, Eq)]
pub enum Action {
    /// Run `kill` with this argument, the window's process identifier.
    Kill(String),
    /// Run `swaymsg` with this argument.
    Focus(String),
    /// Hand this command line to `bash -c`, and do not wait for it.
    Launch(String),
}

/// The mathematical value of an [`Action`].
pub enum ActionView {
    Kill(Seq<char>),
    Focus(Seq<char>),
    Launch(Seq<char>),
}

impl View for Action {
    type V = ActionView;

    open spec fn view(&self) -> ActionView {
        match self {
            Action::Kill(a) => ActionView::Kill(a@),
            Action::Focus(a) => ActionView::Focus(a@),
            Action::Launch(a) => ActionView::Launch(a@),
        }
    }
}

/// No window before position `k` fits the description.
pub open spec fn none_fits_before(
    nodes: Seq<NodeView>,
    class: Option<Seq<char>>,
    title: Option<Seq<char>>,
    k: int,
) -> bool {
    forall|j: int| 0 <= j < k && j < nodes.len() ==> !fits(#[trigger] nodes[j], class, title)
}

/// The position of the first window that fits the description, if one does.
pub open spec fn first_fit(
    nodes: Seq<NodeView>,
    class: Option<Seq<char>>,
    title: Option<Seq<char>>,
) -> Option<int>
    decreases nodes.len(),
{
    if nodes.len() == 0 {
        None
    } else {
        match first_fit(nodes.drop_last(), class, title) {
            Some(i) => Some(i),
            None => if fits(nodes.last(), class, title) {
                Some(nodes.len() - 1)
            } else {
                None
            },
        }
    }
}

/// `first_fit` is what its name says: the window at the position fits, none
/// before it does, and without a position no window fits.
pub proof fn lemma_first_fit(
    nodes: Seq<NodeView>,
    class: Option<Seq<char>>,
    title: Option<Seq<char>>,
)
    ensures
        match first_fit(nodes, class, title) {
            Some(i) => 0 <= i < nodes.len() && fits(nodes[i], class, title) && none_fits_before(
                nodes,
                class,
                title,
                i,
            ),
            None => none_fits_before(nodes, class, title, nodes.len() as int),
        },
    decreases nodes.len(),
{
    if nodes.len() > 0 {
        let rest = nodes.drop_last();
        lemma_first_fit(rest, class, title);
        assert forall|j: int| 0 <= j < rest.len() implies rest[j] == nodes[j] by {}
        match first_fit(rest, class, title) {
            Some(i) => {
                assert forall|j: int| 0 <= j < i && j < nodes.len() implies !fits(
                    #[trigger] nodes[j],
                    class,
                    title,
                ) by {
                    assert(rest[j] == nodes[j]);
                }
            },
            None => {
                assert forall|j: int| 0 <= j < nodes.len() - 1 implies !fits(
                    #[trigger] nodes[j],
                    class,
                    title,
                ) by {
                    assert(rest[j] == nodes[j]);
                }
            },
        }
    }
}

/// The `swaymsg` argument that focuses the container `id`.
pub open spec fn focus_command(id: u64) -> Seq<char> {
    "[con_id=\""@ + decimal_of(id as nat) + "\"] focus"@
}

/// What is to be done for the application that `class` and `title`
/// describe, given the windows that are open.
pub open spec fn planned(
    nodes: Seq<NodeView>,
    class: Option<Seq<char>>,
    title: Option<Seq<char>>,
    instruction: Instruction,
    cmd: Seq<char>,
) -> Result<ActionView, RunOrError> {
    if class is None && title is None {
        Err(RunOrError::NoCriteria)
    } else {
        match first_fit(nodes, class, title) {
            None => Ok(ActionView::Launch(cmd)),
            Some(i) => match instruction {
                Instruction::Kill => Ok(ActionView::Kill(decimal_of(nodes[i].pid as nat))),
                Instruction::Focus => Ok(ActionView::Focus(focus_command(nodes[i].id))),
            },
        }
    }
}

/// The position of the first window that fits the description.
pub fn find_window(nodes: &Vec<Node>, class: &Option<String>, title: &Option<String>) -> (r:
    Option<usize>)
    ensures
        match r {
            Some(i) => i < nodes@.len() && first_fit(
                views(nodes@),
                text_of(*class),
                text_of(*title),
            ) == Some(i as int),
            None => first_fit(views(nodes@), text_of(*class), text_of(*title)) is None,
        },
{
    let ghost all = views(nodes@);
    let mut i: usize = 0;
    proof {
        assert(all.take(0) =~= Seq::<NodeView>::empty());
    }
    while i < nodes.len()
        invariant
            i <= nodes.len(),
            all == views(nodes@),
            first_fit(all.take(i as int), text_of(*class), text_of(*title)) is None,
        decreases nodes.len() - i,
    {
        proof {
            assert(all.take(i + 1).drop_last() =~= all.take(i as int));
            assert(all.take(i + 1).last() == nodes@[i as int]@);
        }
        if nodes[i].matches(class, title) {
            proof {
                lemma_first_fit_extends(all, i + 1, text_of(*class), text_of(*title));
            }
            return Some(i);
        }
        i += 1;
    }
    proof {
        assert(all.take(i as int) =~= all);
    }
    None
}

/// A first fit among the first `k` windows is the first fit among all.
pub proof fn lemma_first_fit_extends(
    nodes: Seq<NodeView>,
    k: int,
    class: Option<Seq<char>>,
    title: Option<Seq<char>>,
)
    requires
        0 <= k <= nodes.len(),
        first_fit(nodes.take(k), class, title) is Some,
    ensures
        first_fit(nodes, class, title) == first_fit(nodes.take(k), class, title),
    decreases nodes.len() - k,
{
    if k == nodes.len() {
        assert(nodes.take(k) =~= nodes);
    } else {
        assert(nodes.take(k + 1).drop_last() =~= nodes.take(k));
        lemma_first_fit_extends(nodes, k + 1, class, title);
    }
}

/// Decides what to run: the launch command where no window fits, else the
/// command that carries out `instruction` on the first window that does.
pub fn plan(
    nodes: &Vec<Node>,
    class: &Option<String>,
    title: &Option<String>,
    instruction: Instruction,
    cmd: &str,
) -> (r: Result<Action, RunOrError>)
    ensures
        match r {
            Ok(a) => planned(views(nodes@), text_of(*class), text_of(*title), instruction, cmd@)
                == Ok::<ActionView, RunOrError>(a@),
            Err(e) => planned(views(nodes@), text_of(*class), text_of(*title), instruction, cmd@)
                == Err::<ActionView, RunOrError>(e),
        },
{
    if class.is_none() && title.is_none() {
        return Err(RunOrError::NoCriteria);
    }
    match find_window(nodes, class, title) {
        None => Ok(Action::Launch(String::from_str(cmd))),
        Some(i) => {
            let node = &nodes[i];
            match instruction {
                Instruction::Kill => Ok(Action::Kill(decimal(node.pid()))),
                Instruction::Focus => {
                    let id = decimal(node.id());
                    Ok(Action::Focus(concat3("[con_id=\"", id.as_str(), "\"] focus")))
                },
            }
        },
    }
}

} // verus!
