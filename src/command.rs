//! The operations a command line can ask for, and their validation.
use vstd::prelude::*;

verus! {

/// What one invocation asks for.
#[derive(Debug, PartialEq, Eq)]
pub enum Operation {
    /// Set an attribute: reserved, it performs no action.
    Add,
    /// Remove each named attribute, in order, from the entry at `path`.
    Remove { attributes: Vec<Vec<u8>>, path: Vec<u8> },
}

/// The mathematical model of an [`Operation`].
pub ghost enum OperationView {
    Add,
    Remove { attributes: Seq<Seq<u8>>, path: Seq<u8> },
}

/// A command line that cannot be turned into an operation.
#[derive(Debug, Clone, Copy, PartialEq, Eq, Structural)]
pub enum UsageError {
    /// `remove` was given no attribute name.
    MissingAttributes,
    /// `remove` was given an empty attribute name.
    EmptyAttribute,
    /// `remove` was given no path.
    MissingPath,
}

/// The byte strings held by a list of byte vectors.
pub open spec fn names_view(v: Seq<Vec<u8>>) -> Seq<Seq<u8>> {
    v.map_values(|a: Vec<u8>| a@)
}

impl View for Operation {
    type V = OperationView;

    open spec fn view(&self) -> OperationView {
        match self {
            Operation::Add => OperationView::Add,
            Operation::Remove { attributes, path } => OperationView::Remove {
                attributes: names_view(attributes@),
                path: path@,
            },
        }
    }
}

/// What validating the arguments of `remove` gives: the path is checked
/// first, then that there is at least one name, then that no name is empty.
pub open spec fn remove_outcome(attributes: Seq<Seq<u8>>, path: Option<Seq<u8>>) -> Result<
    OperationView,
    UsageError,
> {
    match path {
        None => Err(UsageError::MissingPath),
        Some(p) => if attributes.len() == 0 {
            Err(UsageError::MissingAttributes)
        } else if exists|i: int| 0 <= i < attributes.len() && #[trigger] attributes[i].len() == 0 {
            Err(UsageError::EmptyAttribute)
        } else {
            Ok(OperationView::Remove { attributes, path: p })
        },
    }
}

/// The view of an optional byte vector.
pub open spec fn opt_view(p: Option<Vec<u8>>) -> Option<Seq<u8>> {
    match p {
        Some(v) => Some(v@),
        None => None,
    }
}

impl Operation {
    /// Builds a `remove` operation from its decoded arguments.
    pub fn remove(attributes: Vec<Vec<u8>>, path: Option<Vec<u8>>) -> (r: Result<
        Operation,
        UsageError,
    >)
        ensures
            match remove_outcome(names_view(attributes@), opt_view(path)) {
                Ok(v) => r is Ok && r->Ok_0@ == v,
                Err(e) => r == Err::<Operation, UsageError>(e),
            },
    {
        if path.is_none() {
            return Err(UsageError::MissingPath);
        }
        let target = path.unwrap();
        if attributes.len() == 0 {
            return Err(UsageError::MissingAttributes);
        }
        let mut i: usize = 0;
        while i < attributes.len()
            invariant
                i <= attributes@.len(),
                attributes@.len() > 0,
                opt_view(path) == Some(target@),
                forall|j: int| 0 <= j < i ==> #[trigger] attributes@[j]@.len() > 0,
            decreases attributes@.len() - i,
        {
            if attributes[i].len() == 0 {
                assert(names_view(attributes@).len() == attributes@.len());
                assert(names_view(attributes@)[i as int].len() == 0);
                return Err(UsageError::EmptyAttribute);
            }
            i = i + 1;
        }
        assert forall|j: int| 0 <= j < attributes@.len() implies #[trigger] names_view(
            attributes@,
        )[j].len() > 0 by {
            assert(attributes@[j]@.len() > 0);
        }
        Ok(Operation::Remove { attributes, path: target })
    }
}

/// Whether output is colored: the explicit choice where one was made, else
/// whether standard output is an interactive terminal.
pub fn resolve_colorize(choice: Option<bool>, stdout_is_terminal: bool) -> (r: bool)
    ensures
        r == match choice {
            Some(c) => c,
            None => stdout_is_terminal,
        },
{
    match choice {
        Some(c) => c,
        None => stdout_is_terminal,
    }
}

} // verus!
