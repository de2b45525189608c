use vstd::prelude::*;
use crate::paths::{conflict_name, conflict_path};
use crate::text::{chars_of, push_all, string_of};

verus! {

/// A filesystem entry at a path, as far as mirroring cares: a symbolic link
/// and its target, or a regular file and its contents.
pub enum Entry {
    Link(Seq<char>),
    File(Seq<u8>),
}

/// What currently occupies a destination path.
pub enum Slot {
    Absent,
    Symlink(Seq<char>),
    RegularFile,
}

/// One filesystem mutation, over character sequences.
pub enum Step {
    /// Create every missing ancestor directory of the path.
    MakeParents(Seq<char>),
    /// Remove the link at the path.
    Remove(Seq<char>),
    /// Rename the first path to the second.
    Rename(Seq<char>, Seq<char>),
    /// Create a link at the second path pointing to the first.
    Symlink(Seq<char>, Seq<char>),
}

/// One logged action, over character sequences.
pub enum Note {
    /// A link at the first path to the second was created.
    Created(Seq<char>, Seq<char>),
    /// The link at the first path pointed to the second and now to the third.
    Replaced(Seq<char>, Seq<char>, Seq<char>),
    /// A regular file at the first path was moved to the second.
    ConflictMoved(Seq<char>, Seq<char>),
}

/// What occupies a destination path, as inspected just before acting on it.
#[derive(Clone, Debug)]
pub enum DestState {
    Absent,
    Symlink { target: String },
    RegularFile,
}

/// A filesystem mutation to perform.
#[derive(Clone, Debug)]
pub enum FsOp {
    /// Create every missing ancestor directory of `path`.
    CreateParentDirs { path: String },
    /// Remove the link at `path`.
    RemoveLink { path: String },
    /// Rename `from` to `to`.
    MoveAside { from: String, to: String },
    /// Create a link at `path` pointing to `target`.
    Link { target: String, path: String },
}

/// An action to log.
#[derive(Clone, Debug)]
pub enum Event {
    Created { link: String, target: String },
    Replaced { link: String, old_target: String, new_target: String },
    ConflictMoved { from: String, to: String },
}

/// The mutations for one destination path, in order, and the events to log.
#[derive(Clone, Debug)]
pub struct Plan {
    pub ops: Vec<FsOp>,
    pub events: Vec<Event>,
}

impl DestState {
    pub open spec fn view(&self) -> Slot {
        match self {
            DestState::Absent => Slot::Absent,
            DestState::Symlink { target } => Slot::Symlink(target@),
            DestState::RegularFile => Slot::RegularFile,
        }
    }
}

impl FsOp {
    pub open spec fn view(&self) -> Step {
        match self {
            FsOp::CreateParentDirs { path } => Step::MakeParents(path@),
            FsOp::RemoveLink { path } => Step::Remove(path@),
            FsOp::MoveAside { from, to } => Step::Rename(from@, to@),
            FsOp::Link { target, path } => Step::Symlink(target@, path@),
        }
    }
}

impl Event {
    pub open spec fn view(&self) -> Note {
        match self {
            Event::Created { link, target } => Note::Created(link@, target@),
            Event::Replaced { link, old_target, new_target } => Note::Replaced(
                link@,
                old_target@,
                new_target@,
            ),
            Event::ConflictMoved { from, to } => Note::ConflictMoved(from@, to@),
        }
    }

    /// The line logged for this event.
    pub fn message(&self) -> (r: String)
        ensures
            r@ == message_text(self@),
    {
        let mut out: Vec<char> = Vec::new();
        match self {
            Event::Created { link, target } => {
                push_all(&mut out, &chars_of("Created symlink: "));
                push_all(&mut out, &chars_of(link.as_str()));
                push_all(&mut out, &chars_of(" -> "));
                push_all(&mut out, &chars_of(target.as_str()));
            },
            Event::Replaced { link, old_target, new_target } => {
                push_all(&mut out, &chars_of("Replaced existing symlink: "));
                push_all(&mut out, &chars_of(link.as_str()));
                push_all(&mut out, &chars_of(" -> "));
                push_all(&mut out, &chars_of(old_target.as_str()));
                push_all(&mut out, &chars_of(", now -> "));
                push_all(&mut out, &chars_of(new_target.as_str()));
            },
            Event::ConflictMoved { from, to } => {
                push_all(&mut out, &chars_of("Conflict: "));
                push_all(&mut out, &chars_of(from.as_str()));
                push_all(&mut out, &chars_of(" already exists, moving to "));
                push_all(&mut out, &chars_of(to.as_str()));
            },
        }
        string_of(&out)
    }
}

/// The text of the log line for `n`.
pub open spec fn message_text(n: Note) -> Seq<char> {
    match n {
        Note::Created(link, target) => "Created symlink: "@ + link + " -> "@ + target,
        Note::Replaced(link, old_target, new_target) => "Replaced existing symlink: "@ + link
            + " -> "@ + old_target + ", now -> "@ + new_target,
        Note::ConflictMoved(from, to) => "Conflict: "@ + from + " already exists, moving to "@
            + to,
    }
}

/// The steps that make `dest` a link to `source`, given what occupies it.
pub open spec fn plan_steps(slot: Slot, source: Seq<char>, dest: Seq<char>) -> Seq<Step> {
    match slot {
        Slot::Absent => seq![Step::MakeParents(dest), Step::Symlink(source, dest)],
        Slot::Symlink(_) => seq![
            Step::MakeParents(dest),
            Step::Remove(dest),
            Step::Symlink(source, dest),
        ],
        Slot::RegularFile => seq![
            Step::MakeParents(dest),
            Step::Rename(dest, conflict_name(dest)),
            Step::Symlink(source, dest),
        ],
    }
}

/// The events logged while making `dest` a link to `source`.
pub open spec fn plan_notes(slot: Slot, source: Seq<char>, dest: Seq<char>) -> Seq<Note> {
    match slot {
        Slot::Absent => seq![Note::Created(dest, source)],
        Slot::Symlink(old) => seq![Note::Replaced(dest, old, source)],
        Slot::RegularFile => seq![
            Note::ConflictMoved(dest, conflict_name(dest)),
            Note::Created(dest, source),
        ],
    }
}

/// `slot` tells truly what `tree` holds at `p`.
pub open spec fn describes(slot: Slot, tree: Map<Seq<char>, Entry>, p: Seq<char>) -> bool {
    match slot {
        Slot::Absent => !tree.contains_key(p),
        Slot::Symlink(t) => tree.contains_key(p) && tree[p] == Entry::Link(t),
        Slot::RegularFile => tree.contains_key(p) && tree[p] is File,
    }
}

/// The entries after one step. Directories are not modelled; a rename
/// replaces whatever stood at its target.
pub open spec fn apply_step(tree: Map<Seq<char>, Entry>, s: Step) -> Map<Seq<char>, Entry> {
    match s {
        Step::MakeParents(_) => tree,
        Step::Remove(p) => tree.remove(p),
        Step::Rename(from, to) => if tree.contains_key(from) {
            tree.remove(from).insert(to, tree[from])
        } else {
            tree
        },
        Step::Symlink(target, p) => tree.insert(p, Entry::Link(target)),
    }
}

/// The entries after the steps, in order.
pub open spec fn apply_steps(tree: Map<Seq<char>, Entry>, steps: Seq<Step>) -> Map<
    Seq<char>,
    Entry,
>
    decreases steps.len(),
{
    if steps.len() == 0 {
        tree
    } else {
        apply_steps(apply_step(tree, steps[0]), steps.drop_first())
    }
}

impl Plan {
    /// The mutations as steps.
    pub open spec fn steps(&self) -> Seq<Step> {
        self.ops@.map_values(|o: FsOp| o@)
    }

    /// The events as notes.
    pub open spec fn notes(&self) -> Seq<Note> {
        self.events@.map_values(|e: Event| e@)
    }
}

/// Decides how `dest` becomes a link to `source`: a missing entry is simply
/// created; an existing link is removed and recreated; a regular file is
/// moved to `dest` with `.conflict` appended before the link is created.
/// Parent directories are created first in every case.
pub fn plan(state: &DestState, source: &String, dest: &String) -> (r: Plan)
    ensures
        r.steps() == plan_steps(state@, source@, dest@),
        r.notes() == plan_notes(state@, source@, dest@),
{
    let mut ops: Vec<FsOp> = Vec::new();
    let mut events: Vec<Event> = Vec::new();
    ops.push(FsOp::CreateParentDirs { path: dest.clone() });
    match state {
        DestState::Absent => {
            events.push(Event::Created { link: dest.clone(), target: source.clone() });
        },
        DestState::Symlink { target } => {
            ops.push(FsOp::RemoveLink { path: dest.clone() });
            events.push(
                Event::Replaced {
                    link: dest.clone(),
                    old_target: target.clone(),
                    new_target: source.clone(),
                },
            );
        },
        DestState::RegularFile => {
            let aside = conflict_path(dest.as_str());
            ops.push(FsOp::MoveAside { from: dest.clone(), to: aside.clone() });
            events.push(Event::ConflictMoved { from: dest.clone(), to: aside });
            events.push(Event::Created { link: dest.clone(), target: source.clone() });
        },
    }
    ops.push(FsOp::Link { target: source.clone(), path: dest.clone() });
    let r = Plan { ops, events };
    assert(r.steps() =~= plan_steps(state@, source@, dest@));
    assert(r.notes() =~= plan_notes(state@, source@, dest@));
    r
}

} // verus!
