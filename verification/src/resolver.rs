//! Resolution of the packages of the repository that a package depends on.
//!
//! Loading a definition is the caller's work. The resolver decides what to load
//! next: it walks the dependencies depth first, asks for each package of the
//! repository that is not resolved yet, and files a package once everything it
//! depends on is filed. A package that depends on itself, directly or through
//! others, is reported instead of being loaded again.

use crate::error::{Error, ErrorView};
use crate::package::{PackageCollection, PackageDefinition, PackageView};
use crate::planner::{
    covers,
    covers_all,
    dot,
    is_closed,
    is_local,
    lemma_closed_repository_plans,
    plan_package,
};
use vstd::prelude::*;

verus! {

/// A package whose dependencies are being resolved.
pub struct Frame {
    name: Option<String>,
    package: PackageDefinition,
    next: usize,
}

/// The mathematical value of a [`Frame`]: the name under which the package will
/// be filed (none for the root), the package, and the index of the first
/// dependency that has not been looked at.
pub ghost struct FrameView {
    pub name: Option<Seq<char>>,
    pub package: PackageView,
    pub next: int,
}

impl View for Frame {
    type V = FrameView;

    closed spec fn view(&self) -> FrameView {
        FrameView {
            name: crate::package::text_view(self.name),
            package: self.package@,
            next: self.next as int,
        }
    }
}

impl DeepView for Frame {
    type V = FrameView;

    open spec fn deep_view(&self) -> FrameView {
        self@
    }
}

/// What the caller found when it went to load a package.
pub enum Answer {
    /// The definition of the package.
    Package(PackageDefinition),
    /// The repository holds no such package.
    Missing,
    /// The definition is there and cannot be read; the text says why.
    Unreadable(String),
}

/// The mathematical value of an [`Answer`].
pub ghost enum AnswerView {
    Package(PackageView),
    Missing,
    Unreadable(Seq<char>),
}

impl View for Answer {
    type V = AnswerView;

    open spec fn view(&self) -> AnswerView {
        match *self {
            Answer::Package(package) => AnswerView::Package(package@),
            Answer::Missing => AnswerView::Missing,
            Answer::Unreadable(reason) => AnswerView::Unreadable(reason@),
        }
    }
}

/// What the resolver needs next.
#[derive(Debug)]
pub enum Request {
    /// The definition of the package of this name.
    Load(String),
    /// Nothing: every package is resolved.
    Finished,
    /// Nothing: resolution cannot go on.
    Failed(Error),
}

/// The mathematical value of a [`Request`].
pub ghost enum RequestView {
    Load(Seq<char>),
    Finished,
    Failed(ErrorView),
}

impl View for Request {
    type V = RequestView;

    open spec fn view(&self) -> RequestView {
        match *self {
            Request::Load(name) => RequestView::Load(name@),
            Request::Finished => RequestView::Finished,
            Request::Failed(error) => RequestView::Failed(error@),
        }
    }
}

/// The state of a resolution.
pub struct Resolver {
    resolved: PackageCollection,
    stack: Vec<Frame>,
    awaiting: Option<String>,
}

/// The mathematical value of a [`Resolver`]: the packages filed so far, the
/// packages being resolved from the root up to the one in hand, and the name of
/// the package that was asked for and not supplied yet.
pub ghost struct ResolverView {
    pub resolved: Map<Seq<char>, PackageView>,
    pub stack: Seq<FrameView>,
    pub awaiting: Option<Seq<char>>,
}

impl View for Resolver {
    type V = ResolverView;

    closed spec fn view(&self) -> ResolverView {
        ResolverView {
            resolved: self.resolved@,
            stack: self.stack.deep_view(),
            awaiting: crate::package::text_view(self.awaiting),
        }
    }
}

/// The index of the first dependency of `package`, from `from` on, that names a
/// package of the repository which is not resolved; the number of dependencies,
/// or `from` if that is more, when there is none.
pub open spec fn first_unresolved(
    package: PackageView,
    from: int,
    resolved: Map<Seq<char>, PackageView>,
) -> int
    decreases package.dependencies.len() - from,
{
    if from < 0 || from >= package.dependencies.len() {
        from
    } else if package.dependencies[from].source == dot() && !resolved.contains_key(
        package.dependencies[from].name,
    ) {
        from
    } else {
        first_unresolved(package, from + 1, resolved)
    }
}

/// Whether a package of this name is being resolved.
pub open spec fn in_progress(stack: Seq<FrameView>, name: Seq<char>) -> bool {
    exists|level: int| 0 <= level < stack.len() && (#[trigger] stack[level]).name == Some(name)
}

/// `frame` with another index of the next dependency.
pub open spec fn moved_to(frame: FrameView, next: int) -> FrameView {
    FrameView { name: frame.name, package: frame.package, next }
}

/// The state in which the resolver comes to rest, and what it then asks for.
///
/// While a package is awaited, nothing moves. Otherwise the package in hand is
/// searched for its next unresolved dependency. If there is one, it is asked
/// for, unless a package of that name is being resolved: then the resolution has
/// failed. If there is none, the package in hand is filed and the search goes on
/// in the package that depends on it; the root is not filed, and ends the resolution.
pub open spec fn settled(state: ResolverView) -> (ResolverView, RequestView)
    decreases state.stack.len(),
{
    if state.awaiting is Some {
        (state, RequestView::Load(state.awaiting.unwrap()))
    } else if state.stack.len() == 0 {
        (state, RequestView::Finished)
    } else {
        let top = state.stack.last();
        let below = state.stack.drop_last();
        let at = first_unresolved(top.package, top.next, state.resolved);
        if 0 <= at < top.package.dependencies.len() {
            let name = top.package.dependencies[at].name;
            if in_progress(state.stack, name) {
                (
                    ResolverView {
                        resolved: state.resolved,
                        stack: below.push(moved_to(top, at)),
                        awaiting: None,
                    },
                    RequestView::Failed(ErrorView::CyclicDependency { name }),
                )
            } else {
                (
                    ResolverView {
                        resolved: state.resolved,
                        stack: below.push(moved_to(top, at + 1)),
                        awaiting: Some(name),
                    },
                    RequestView::Load(name),
                )
            }
        } else {
            match top.name {
                None => (
                    ResolverView {
                        resolved: state.resolved,
                        stack: below.push(moved_to(top, at)),
                        awaiting: None,
                    },
                    RequestView::Finished,
                ),
                Some(name) => settled(
                    ResolverView {
                        resolved: state.resolved.insert(name, top.package),
                        stack: below,
                        awaiting: None,
                    },
                ),
            }
        }
    }
}

/// What an answer makes of the state: the package that was awaited is taken in
/// hand, or the resolution fails with the reason why there is no package. An
/// answer that nothing awaits changes nothing.
pub open spec fn supplied(state: ResolverView, answer: AnswerView) -> Result<
    ResolverView,
    ErrorView,
> {
    match state.awaiting {
        None => Ok(state),
        Some(name) => match answer {
            AnswerView::Package(package) => Ok(
                ResolverView {
                    resolved: state.resolved,
                    stack: state.stack.push(FrameView { name: Some(name), package, next: 0 }),
                    awaiting: None,
                },
            ),
            AnswerView::Missing => Err(ErrorView::MissingPackage { name }),
            AnswerView::Unreadable(reason) => Err(ErrorView::ParseError { reason }),
        },
    }
}

/// Whether a package of this name is among `stack`.
fn is_in_progress(stack: &Vec<Frame>, name: &String) -> (found: bool)
    ensures
        found == in_progress(stack.deep_view(), name@),
{
    let mut level: usize = 0;
    while level < stack.len()
        invariant
            level <= stack.len(),
            forall|lower: int|
                0 <= lower < level ==> (#[trigger] stack.deep_view()[lower]).name != Some(name@),
        decreases stack.len() - level,
    {
        let same = match &stack[level].name {
            Some(other) => *other == *name,
            None => false,
        };
        if same {
            assert(stack.deep_view()[level as int].name == Some(name@));
            return true;
        }
        assert(stack.deep_view()[level as int] == stack[level as int]@);
        level += 1;
    }
    false
}

impl Resolver {
    /// The resolution of what `root` depends on, before anything is loaded.
    pub fn new(root: &PackageDefinition) -> (resolver: Self)
        ensures
            resolver@ == (ResolverView {
                resolved: Map::empty(),
                stack: seq![FrameView { name: None, package: root@, next: 0 }],
                awaiting: None,
            }),
    {
        let mut stack: Vec<Frame> = Vec::new();
        stack.push(Frame { name: None, package: root.clone(), next: 0 });
        let resolver = Resolver { resolved: PackageCollection::new(), stack, awaiting: None };
        assert(resolver@.stack =~= seq![FrameView { name: None, package: root@, next: 0 }]);
        resolver
    }

    /// Takes the answer to the last request.
    pub fn supply(&mut self, answer: Answer) -> (result: Result<(), Error>)
        ensures
            match supplied(old(self)@, answer@) {
                Ok(state) => result is Ok && final(self)@ == state,
                Err(error) => result is Err && result.unwrap_err()@ == error && final(self)@
                    == old(self)@,
            },
    {
        let name = match &self.awaiting {
            None => {
                return Ok(());
            },
            Some(awaited) => awaited.clone(),
        };
        match answer {
            Answer::Package(package) => {
                let ghost below = self.stack.deep_view();
                let ghost frame = FrameView { name: Some(name@), package: package@, next: 0 };
                self.stack.push(Frame { name: Some(name), package, next: 0 });
                self.awaiting = None;
                assert(self.stack.deep_view() =~= below.push(frame));
                Ok(())
            },
            Answer::Missing => Err(Error::MissingPackage { name }),
            Answer::Unreadable(reason) => Err(Error::ParseError { reason }),
        }
    }

    /// Goes on until a package has to be loaded or nothing is left to resolve,
    /// and says which.
    pub fn next_request(&mut self) -> (request: Request)
        ensures
            final(self)@ == settled(old(self)@).0,
            request@ == settled(old(self)@).1,
    {
        if let Some(awaited) = &self.awaiting {
            return Request::Load(awaited.clone());
        }
        loop
            invariant
                self@.awaiting is None,
                settled(self@) == settled(old(self)@),
            decreases self.stack.len(),
        {
            let ghost state = self@;
            let mut frame = match self.stack.pop() {
                None => {
                    return Request::Finished;
                },
                Some(frame) => frame,
            };
            let ghost top = frame@;
            let ghost below = self.stack.deep_view();
            assert(top == state.stack.last());
            assert(below =~= state.stack.drop_last());
            let mut at: usize = frame.next;
            let mut found = false;
            while !found && at < frame.package.dependencies.len()
                invariant
                    frame@ == top,
                    self@.resolved == state.resolved,
                    top.next <= at,
                    first_unresolved(top.package, at as int, state.resolved) == first_unresolved(
                        top.package,
                        top.next,
                        state.resolved,
                    ),
                    found ==> at < frame.package.dependencies.len(),
                    found ==> at < top.package.dependencies.len() && first_unresolved(
                        top.package,
                        at as int,
                        state.resolved,
                    ) == at,
                decreases frame.package.dependencies.len() - at + if found { 0int } else { 1int },
            {
                let dependency = &frame.package.dependencies[at];
                assert(dependency@ == top.package.dependencies[at as int]);
                if is_local(&dependency.source) && !self.resolved.contains_key(&dependency.name) {
                    found = true;
                } else {
                    at += 1;
                }
            }
            if found {
                let name = frame.package.dependencies[at].name.clone();
                assert(name@ == top.package.dependencies[at as int].name);
                let ghost moved = moved_to(top, at as int);
                let cyclic = match &frame.name {
                    Some(own) => *own == name,
                    None => false,
                } || is_in_progress(&self.stack, &name);
                proof {
                    if in_progress(state.stack, name@) {
                        let level = choose|level: int|
                            0 <= level < state.stack.len() && (#[trigger] state.stack[level]).name
                                == Some(name@);
                        if level < below.len() {
                            assert(below[level] == state.stack[level]);
                        }
                    }
                    if in_progress(below, name@) {
                        let level = choose|level: int|
                            0 <= level < below.len() && (#[trigger] below[level]).name == Some(
                                name@,
                            );
                        assert(state.stack[level] == below[level]);
                    }
                    if top.name == Some(name@) {
                        assert(state.stack[state.stack.len() - 1].name == Some(name@));
                    }
                }
                if cyclic {
                    frame.next = at;
                    self.stack.push(frame);
                    assert(self.stack.deep_view() =~= below.push(moved));
                    return Request::Failed(Error::CyclicDependency { name });
                }
                frame.next = at + 1;
                self.stack.push(frame);
                assert(self.stack.deep_view() =~= below.push(moved_to(top, at + 1)));
                self.awaiting = Some(name.clone());
                return Request::Load(name);
            }
            match frame.name {
                None => {
                    let root = Frame { name: None, package: frame.package, next: at };
                    self.stack.push(root);
                    assert(self.stack.deep_view() =~= below.push(moved_to(top, at as int)));
                    return Request::Finished;
                },
                Some(name) => {
                    self.resolved.insert(name, frame.package);
                },
            }
        }
    }

    /// The packages filed so far.
    pub fn into_packages(self) -> (packages: PackageCollection)
        ensures
            packages@ == self@.resolved,
    {
        self.resolved
    }
}


/// Whether the dependency of `frame` that was looked at last names `name` as a
/// package of the repository.
pub open spec fn awaits(frame: FrameView, name: Seq<char>) -> bool {
    &&& 1 <= frame.next <= frame.package.dependencies.len()
    &&& frame.package.dependencies[frame.next - 1].source == dot()
    &&& frame.package.dependencies[frame.next - 1].name == name
}

/// How many dependencies of the package at `level` are resolved for certain:
/// all that were looked at, but for the one that is still being resolved.
pub open spec fn resolved_count(state: ResolverView, level: int) -> int {
    if level < state.stack.len() - 1 || state.awaiting is Some {
        state.stack[level].next - 1
    } else {
        state.stack[level].next
    }
}

/// What holds of every state that a resolution passes through. Finitely many
/// packages are filed, and they depend on nothing that is not filed. The root is at the bottom and alone has
/// no name. Of each package being resolved, the dependencies looked at so far
/// are filed, but for the last one where that is the package above it or the
/// package awaited.
pub open spec fn consistent(state: ResolverView) -> bool {
    let stack = state.stack;
    &&& state.resolved.dom().finite()
    &&& is_closed(state.resolved)
    &&& stack.len() >= 1
    &&& stack[0].name is None
    &&& forall|level: int| 0 < level < stack.len() ==> (#[trigger] stack[level]).name is Some
    &&& forall|level: int|
        0 <= level < stack.len() ==> 0 <= (#[trigger] stack[level]).next
            <= stack[level].package.dependencies.len()
    &&& forall|level: int|
        0 <= level < stack.len() ==> covers(
            state.resolved,
            (#[trigger] stack[level]).package,
            resolved_count(state, level),
        )
    &&& forall|level: int|
        0 <= level < stack.len() - 1 ==> awaits(
            #[trigger] stack[level],
            stack[level + 1].name.unwrap(),
        )
    &&& state.awaiting is Some ==> awaits(stack.last(), state.awaiting.unwrap())
}

/// What the search for the first unresolved dependency finds: nothing before it
/// is unresolved, and it is unresolved itself unless the search came to the end.
pub proof fn lemma_first_unresolved(
    package: PackageView,
    from: int,
    resolved: Map<Seq<char>, PackageView>,
)
    requires
        0 <= from <= package.dependencies.len(),
    ensures
        from <= first_unresolved(package, from, resolved) <= package.dependencies.len(),
        forall|index: int|
            from <= index < first_unresolved(package, from, resolved) && (
            #[trigger] package.dependencies[index]).source == dot() ==> resolved.contains_key(
                package.dependencies[index].name,
            ),
        first_unresolved(package, from, resolved) < package.dependencies.len() ==> {
            let found = package.dependencies[first_unresolved(package, from, resolved)];
            found.source == dot() && !resolved.contains_key(found.name)
        },
    decreases package.dependencies.len() - from,
{
    if from < package.dependencies.len() && !(package.dependencies[from].source == dot()
        && !resolved.contains_key(package.dependencies[from].name)) {
        lemma_first_unresolved(package, from + 1, resolved);
    }
}

/// A resolution starts in a consistent state.
pub proof fn lemma_start_is_consistent(root: PackageView)
    ensures
        consistent(
            ResolverView {
                resolved: Map::empty(),
                stack: seq![FrameView { name: None, package: root, next: 0 }],
                awaiting: None,
            },
        ),
{
}

/// An answer leaves a consistent state consistent.
pub proof fn lemma_supplied_is_consistent(state: ResolverView, answer: AnswerView)
    requires
        consistent(state),
        supplied(state, answer) is Ok,
    ensures
        consistent(supplied(state, answer)->Ok_0),
{
    let after = supplied(state, answer)->Ok_0;
    if state.awaiting is Some {
        assert forall|level: int| 0 <= level < after.stack.len() implies covers(
            after.resolved,
            (#[trigger] after.stack[level]).package,
            resolved_count(after, level),
        ) by {
            if level < state.stack.len() {
                assert(after.stack[level] == state.stack[level]);
                assert(resolved_count(after, level) == resolved_count(state, level));
            }
        }
        assert forall|level: int| 0 <= level < after.stack.len() - 1 implies awaits(
            #[trigger] after.stack[level],
            after.stack[level + 1].name.unwrap(),
        ) by {
            assert(after.stack[level] == state.stack[level]);
            if level < state.stack.len() - 1 {
                assert(after.stack[level + 1] == state.stack[level + 1]);
            }
        }
    }
}

/// Coming to rest leaves a consistent state consistent and the root in its
/// place. When the resolver then says that it has finished, what is filed holds
/// everything that the root depends on in the repository, and everything that
/// those packages depend on in turn.
pub proof fn lemma_settled_is_consistent(state: ResolverView)
    requires
        consistent(state),
    ensures
        consistent(settled(state).0),
        settled(state).0.stack[0].package == state.stack[0].package,
        settled(state).1 is Finished ==> is_closed(settled(state).0.resolved) && covers_all(
            settled(state).0.resolved,
            state.stack[0].package,
        ),
    decreases state.stack.len(),
{
    if state.awaiting is None {
        let top = state.stack.last();
        let below = state.stack.drop_last();
        let at = first_unresolved(top.package, top.next, state.resolved);
        lemma_first_unresolved(top.package, top.next, state.resolved);
        assert(covers(state.resolved, top.package, at)) by {
            assert(covers(state.resolved, top.package, resolved_count(state, state.stack.len() - 1)));
        }
        if at < top.package.dependencies.len() {
            let after = settled(state).0;
            assert forall|level: int| 0 <= level < after.stack.len() implies covers(
                after.resolved,
                (#[trigger] after.stack[level]).package,
                resolved_count(after, level),
            ) by {
                if level < below.len() {
                    assert(after.stack[level] == state.stack[level]);
                    assert(covers(
                        state.resolved,
                        state.stack[level].package,
                        resolved_count(state, level),
                    ));
                }
            }
            assert forall|level: int| 0 <= level < after.stack.len() - 1 implies awaits(
                #[trigger] after.stack[level],
                after.stack[level + 1].name.unwrap(),
            ) by {
                assert(after.stack[level] == state.stack[level]);
                assert(after.stack[level + 1].name == state.stack[level + 1].name);
            }
            assert(after.stack[0].package == state.stack[0].package);
        } else if top.name is None {
            let after = settled(state).0;
            assert(state.stack.len() == 1) by {
                if state.stack.len() > 1 {
                    assert(state.stack[state.stack.len() - 1].name is Some);
                }
            }
            assert(after.stack =~= seq![moved_to(top, at)]);
        } else {
            let name = top.name.unwrap();
            let filed = state.resolved.insert(name, top.package);
            let next = ResolverView { resolved: filed, stack: below, awaiting: None };
            assert(state.stack.len() > 1);
            assert(is_closed(filed)) by {
                assert forall|other: Seq<char>| #[trigger] filed.contains_key(other) implies covers_all(
                    filed,
                    filed[other],
                ) by {
                    if other != name {
                        assert(state.resolved.contains_key(other));
                        assert(covers_all(state.resolved, state.resolved[other]));
                    }
                }
            }
            assert forall|level: int| 0 <= level < below.len() implies covers(
                filed,
                (#[trigger] below[level]).package,
                resolved_count(next, level),
            ) by {
                assert(below[level] == state.stack[level]);
                assert(covers(
                    state.resolved,
                    state.stack[level].package,
                    resolved_count(state, level),
                ));
                if level == below.len() - 1 {
                    assert(awaits(state.stack[level], state.stack[level + 1].name.unwrap()));
                }
            }
            assert forall|level: int| 0 <= level < below.len() - 1 implies awaits(
                #[trigger] below[level],
                below[level + 1].name.unwrap(),
            ) by {
                assert(below[level] == state.stack[level]);
                assert(below[level + 1] == state.stack[level + 1]);
            }
            assert forall|level: int| 0 < level < below.len() implies (
            #[trigger] below[level]).name is Some by {
                assert(below[level] == state.stack[level]);
            }
            assert forall|level: int| 0 <= level < below.len() implies 0 <= (
            #[trigger] below[level]).next <= below[level].package.dependencies.len() by {
                assert(below[level] == state.stack[level]);
            }
            assert(below[0] == state.stack[0]);
            assert(consistent(next));
            lemma_settled_is_consistent(next);
        }
    }
}


/// What a finished resolution has filed is enough to plan the root: no package
/// is missing from the plan, whatever was visited before.
pub proof fn lemma_finished_resolution_plans(state: ResolverView, visited: Seq<Seq<char>>)
    requires
        consistent(state),
        settled(state).1 is Finished,
    ensures
        plan_package(state.stack[0].package, settled(state).0.resolved, visited).missing is None,
{
    lemma_settled_is_consistent(state);
    lemma_closed_repository_plans(state.stack[0].package, settled(state).0.resolved, visited);
}

} // verus!
