use crate::action::{is_grant, Action};
use crate::message::Message;
use vstd::hash_map::StringHashMap;
use vstd::prelude::*;

verus! {

/// The session token that each authenticated user currently holds. A user
/// has at most one: a new token takes the place of the one before.
pub struct AuthRegistry {
    tokens: StringHashMap<String>,
}

/// What goes out to the client once an action has been carried out.
#[derive(Debug)]
pub enum Reply {
    /// This message.
    Message(Message),
    /// What the post-listing collaborator returns, as it is.
    Posts,
}

/// The registry that carrying out `action` leaves behind. Only a grant
/// changes it, and only under the name it grants to.
pub open spec fn registry_after(before: Map<Seq<char>, Seq<char>>, action: Action) -> Map<
    Seq<char>,
    Seq<char>,
> {
    match action {
        Action::Grant { name, token, .. } => before.insert(name@, token@),
        _ => before,
    }
}

impl View for AuthRegistry {
    type V = Map<Seq<char>, Seq<char>>;

    closed spec fn view(&self) -> Map<Seq<char>, Seq<char>> {
        Map::new(
            |name: Seq<char>| self.tokens@.contains_key(name),
            |name: Seq<char>| self.tokens@[name]@,
        )
    }
}

impl AuthRegistry {
    /// A registry in which nobody holds a token.
    pub fn new() -> (registry: Self)
        ensures
            registry@ == Map::<Seq<char>, Seq<char>>::empty(),
    {
        let registry = AuthRegistry { tokens: StringHashMap::new() };
        assert(registry@ =~= Map::<Seq<char>, Seq<char>>::empty());
        registry
    }

    /// Binds `token` to `name`. A token that the name held before is gone;
    /// every other name keeps what it has.
    pub fn insert(&mut self, name: String, token: String)
        ensures
            final(self)@ == old(self)@.insert(name@, token@),
    {
        self.tokens.insert(name, token);
        assert(self@ =~= old(self)@.insert(name@, token@));
    }

    /// The token that `name` holds.
    pub fn get(&self, name: &str) -> (token: Option<&String>)
        ensures
            match token {
                Some(held) => self@.contains_key(name@) && self@[name@] == held@,
                None => !self@.contains_key(name@),
            },
    {
        self.tokens.get(name)
    }

    /// Carries out the registry's part of `action` and hands back what is to
    /// be sent.
    pub fn settle(&mut self, action: Action) -> (reply: Reply)
        ensures
            final(self)@ == registry_after(old(self)@, action),
            match action {
                Action::Respond(message) => reply == Reply::Message(message),
                Action::ListPosts => reply is Posts,
                Action::Grant { response, .. } => reply == Reply::Message(response),
            },
    {
        match action {
            Action::Respond(message) => Reply::Message(message),
            Action::ListPosts => Reply::Posts,
            Action::Grant { name, token, response } => {
                self.insert(name, token);
                Reply::Message(response)
            },
        }
    }
}

/// The registry that carrying out `actions` one after the other leaves
/// behind.
pub open spec fn registry_after_all(before: Map<Seq<char>, Seq<char>>, actions: Seq<Action>) -> Map<
    Seq<char>,
    Seq<char>,
>
    decreases actions.len(),
{
    if actions.len() == 0 {
        before
    } else {
        registry_after(registry_after_all(before, actions.drop_last()), actions.last())
    }
}

/// A grant binds its token to its name and touches no other name.
pub proof fn lemma_grant_binds_token(
    before: Map<Seq<char>, Seq<char>>,
    action: Action,
    name: Seq<char>,
    token: Seq<char>,
)
    requires
        is_grant(action, name, token),
    ensures
        registry_after(before, action).contains_key(name),
        registry_after(before, action)[name] == token,
        forall|other: Seq<char>|
            other != name ==> {
                &&& registry_after(before, action).contains_key(other) == before.contains_key(
                    other,
                )
                &&& registry_after(before, action)[other] == before[other]
            },
{
}

/// An action that grants nothing leaves the registry as it was.
pub proof fn lemma_only_grants_change_registry(before: Map<Seq<char>, Seq<char>>, action: Action)
    requires
        !(action is Grant),
    ensures
        registry_after(before, action) == before,
{
}

/// Grants to names that all differ do not cross: in whatever order they are
/// carried out, each name ends up with the token of its own grant.
pub proof fn lemma_grants_do_not_cross(before: Map<Seq<char>, Seq<char>>, actions: Seq<Action>)
    requires
        forall|i: int| 0 <= i < actions.len() ==> #[trigger] actions[i] is Grant,
        forall|i: int, j: int|
            0 <= i < j < actions.len() ==> (#[trigger] actions[i])->name@ != (
            #[trigger] actions[j])->name@,
    ensures
        forall|i: int|
            0 <= i < actions.len() ==> {
                &&& registry_after_all(before, actions).contains_key(
                    (#[trigger] actions[i])->name@,
                )
                &&& registry_after_all(before, actions)[actions[i]->name@] == actions[i]->token@
            },
    decreases actions.len(),
{
    if actions.len() > 0 {
        let earlier = actions.drop_last();
        lemma_grants_do_not_cross(before, earlier);
        assert forall|i: int| 0 <= i < actions.len() implies {
            &&& registry_after_all(before, actions).contains_key((#[trigger] actions[i])->name@)
            &&& registry_after_all(before, actions)[actions[i]->name@] == actions[i]->token@
        } by {
            if i < actions.len() - 1 {
                assert(earlier[i] == actions[i]);
                assert(actions[i]->name@ != actions[actions.len() - 1]->name@);
            }
        }
    }
}

/// A name that none of `actions` grants to keeps what it had, whatever the
/// actions do for other names.
pub proof fn lemma_grants_leave_others(
    before: Map<Seq<char>, Seq<char>>,
    actions: Seq<Action>,
    other: Seq<char>,
)
    requires
        forall|i: int|
            0 <= i < actions.len() && (#[trigger] actions[i]) is Grant ==> actions[i]->name@
                != other,
    ensures
        registry_after_all(before, actions).contains_key(other) == before.contains_key(other),
        registry_after_all(before, actions)[other] == before[other],
    decreases actions.len(),
{
    if actions.len() > 0 {
        let earlier = actions.drop_last();
        assert forall|i: int| 0 <= i < earlier.len() && (#[trigger] earlier[i]) is Grant implies
            earlier[i]->name@ != other by {
            assert(earlier[i] == actions[i]);
        }
        lemma_grants_leave_others(before, earlier, other);
        assert(actions[actions.len() - 1] == actions.last());
    }
}

} // verus!
