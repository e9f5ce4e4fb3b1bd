//! embind's registrations and emval's handles.

use vstd::prelude::*;
use std::collections::BTreeMap;
use crate::hostlib::stat::path_at;
use crate::rt::access::{effective, Access};
use crate::rt::caller::{terminated, Caller};
use crate::text::pieces::{ends_with, from_utf8_lossy, same_text, text_ends};

verus! {

/// One `_embind_register_*` call, as it happened.
#[derive(Debug, Clone, PartialEq, Eq)]
pub struct Registration {
    /// Which registration it was, without the `_embind_register_` prefix.
    pub kind: String,
    /// The name it registered, when the call carries one.
    pub name: String,
    /// The arguments, in order, for anything the name does not cover.
    pub arguments: Vec<i32>,
}

/// A registration, as plain values.
pub struct RegistrationModel {
    /// Which registration it was.
    pub kind: Seq<char>,
    /// The name it registered.
    pub name: Seq<char>,
    /// The arguments.
    pub arguments: Seq<i32>,
}

impl View for Registration {
    type V = RegistrationModel;

    open spec fn view(&self) -> RegistrationModel {
        RegistrationModel {
            kind: self.kind@,
            name: self.name@,
            arguments: self.arguments@,
        }
    }
}

/// Registrations, as plain values.
pub open spec fn recorded(list: Seq<Registration>) -> Seq<RegistrationModel> {
    list.map_values(|registration: Registration| registration@)
}

/// What it takes to call something the module registered.
#[derive(Debug, Clone, Copy, PartialEq, Eq, Structural)]
pub struct Call {
    /// The table slot of the invoker, which unpacks the arguments.
    pub invoker: i32,
    /// The function the invoker calls, as its first argument.
    pub context: i32,
    /// How many arguments the registration says it takes, counting the return type.
    pub arity: i32,
}

/// Where a kind of registration has its invoker and its context among its
/// arguments.
pub open spec fn call_places(kind: Seq<char>) -> Option<(int, int)> {
    if kind == "function"@ {
        Some((3int, 4int))
    } else if kind == "class_function"@ || kind == "class_class_function"@ || kind
        == "class_constructor"@ {
        Some((4int, 5int))
    } else {
        None
    }
}

/// What it takes to call what a registration registered.
pub open spec fn call_of(registration: RegistrationModel) -> Option<Call> {
    let arguments = registration.arguments;
    match call_places(registration.kind) {
        Some((invoker, context)) => if context < arguments.len() {
            Some(
                Call {
                    invoker: arguments[invoker],
                    context: arguments[context],
                    arity: arguments[0],
                },
            )
        } else {
            None
        },
        None => None,
    }
}

impl Registration {
    /// The invoker and the context of a registration that has them.
    ///
    /// An embind registration is a pair of function pointers and a name: the
    /// invoker unpacks the arguments and calls the second. Which arguments hold
    /// which is embind's own C signature; the name is not among them.
    pub fn call(&self) -> (call: Option<Call>)
        ensures
            call == call_of(self@),
    {
        let (invoker, context): (usize, usize) = if same_text(self.kind.as_str(), "function") {
            (3, 4)
        } else if same_text(self.kind.as_str(), "class_function") || same_text(
            self.kind.as_str(),
            "class_class_function",
        ) || same_text(self.kind.as_str(), "class_constructor") {
            (4, 5)
        } else {
            return None;
        };
        if context < self.arguments.len() {
            Some(
                Call {
                    invoker: self.arguments[invoker],
                    context: self.arguments[context],
                    arity: self.arguments[0],
                },
            )
        } else {
            None
        }
    }
}

/// What embind registered and what emval is holding.
///
/// Registration is recorded rather than acted on. Acting on it would mean building
/// a JavaScript type system, and what a reader wants from a run is the list.
#[derive(Debug, Clone, PartialEq, Eq)]
pub struct Embind {
    /// Every registration, in the order the module made it.
    pub registrations: Vec<Registration>,
    /// emval handles by number, with their reference counts. Handle 0 is never
    /// given out: the module treats it as null.
    pub handles: BTreeMap<i32, i32>,
    /// The next handle to hand out.
    pub next_handle: i32,
}

impl Default for Embind {
    fn default() -> (embind: Self)
        ensures
            embind.registrations@ == Seq::<Registration>::empty(),
            embind.handles@ == Map::<i32, i32>::empty(),
            embind.next_handle == 0,
            embind.holds_what_it_gave(),
    {
        Embind { registrations: Vec::new(), handles: BTreeMap::new(), next_handle: 0 }
    }
}

/// How many references a handle has.
pub open spec fn references(handles: Map<i32, i32>, handle: i32) -> int {
    if handles.contains_key(handle) {
        handles[handle] as int
    } else {
        0
    }
}

/// Handles with one more reference to one of them. Null is not a handle.
pub open spec fn with_reference(handles: Map<i32, i32>, handle: i32) -> Map<i32, i32> {
    if handle == 0 {
        handles
    } else {
        handles.insert(handle, (references(handles, handle) + 1) as i32)
    }
}

/// Handles with one reference fewer to one of them. One whose count reaches zero is
/// released, and one that is not held stays so.
pub open spec fn without_reference(handles: Map<i32, i32>, handle: i32) -> Map<i32, i32> {
    if handle == 0 || !handles.contains_key(handle) {
        handles
    } else if handles[handle] <= 1 {
        handles.remove(handle)
    } else {
        handles.insert(handle, (handles[handle] - 1) as i32)
    }
}

/// Whether a registration is the first of a list that meets a condition.
pub open spec fn first_where(
    list: Seq<Registration>,
    found: Option<&Registration>,
    wanted: spec_fn(RegistrationModel) -> bool,
) -> bool {
    match found {
        Some(found) => exists|i: int|
            0 <= i < list.len() && #[trigger] list[i] == *found && wanted(list[i]@) && forall|j: int|
                0 <= j < i ==> !wanted((#[trigger] list[j])@),
        None => forall|i: int| 0 <= i < list.len() ==> !wanted((#[trigger] list[i])@),
    }
}

/// Whether a registration is of a free function by that name.
pub open spec fn is_function(registration: RegistrationModel, name: Seq<char>) -> bool {
    registration.kind == "function"@ && registration.name == name
}

/// Whether a registration is of a method by that name.
pub open spec fn is_method(registration: RegistrationModel, name: Seq<char>) -> bool {
    ends_with(registration.kind, "class_function"@) && registration.name == name
}

/// The same numbers.
fn copy_arguments(list: &[i32]) -> (copy: Vec<i32>)
    ensures
        copy@ == list@,
{
    let mut copy: Vec<i32> = Vec::new();
    let mut i: usize = 0;
    while i < list.len()
        invariant
            i <= list@.len(),
            copy@ == list@.take(i as int),
        decreases list@.len() - i,
    {
        copy.push(list[i]);
        i = i + 1;
        assert(copy@ =~= list@.take(i as int));
    }
    assert(list@.take(i as int) =~= list@);
    copy
}

/// The handle that is given out next. Null is not a handle.
pub open spec fn new_handle(next_handle: i32) -> i32 {
    if next_handle < 1 {
        1
    } else {
        next_handle
    }
}

/// Whether a handle lies between the first there is and the next to be handed out.
pub open spec fn was_given(next_handle: i32, handle: i32) -> bool {
    1 <= handle < next_handle
}

impl Embind {
    /// Every handle that is held was given out.
    pub open spec fn holds_what_it_gave(&self) -> bool {
        forall|handle: i32| #[trigger]
            self.handles@.contains_key(handle) ==> was_given(self.next_handle, handle)
    }

    /// Records a registration whose name is at an address.
    pub fn register<M: Access>(
        &mut self,
        caller: &Caller<'_, M>,
        kind: &str,
        name: i32,
        arguments: &[i32],
    )
        requires
            terminated(caller.contents(), effective(name, 0)),
        ensures
            recorded(final(self).registrations@) == recorded(old(self).registrations@).push(
                RegistrationModel {
                    kind: kind@,
                    name: path_at(caller.contents(), name),
                    arguments: arguments@,
                },
            ),
            final(self).handles == old(self).handles,
            final(self).next_handle == old(self).next_handle,
    {
        let bytes: Vec<u8> = caller.cstring(name);
        let text: String = from_utf8_lossy(bytes.as_slice());
        self.register_named(kind, text.as_str(), arguments);
    }

    /// Records a registration that carries no name.
    pub fn register_unnamed(&mut self, kind: &str, arguments: &[i32])
        ensures
            recorded(final(self).registrations@) == recorded(old(self).registrations@).push(
                RegistrationModel { kind: kind@, name: Seq::empty(), arguments: arguments@ },
            ),
            final(self).handles == old(self).handles,
            final(self).next_handle == old(self).next_handle,
    {
        let name: String = String::new();
        assert(name@ =~= Seq::empty());
        self.register_named(kind, name.as_str(), arguments);
    }

    /// Records a registration with its name.
    pub fn register_named(&mut self, kind: &str, name: &str, arguments: &[i32])
        ensures
            recorded(final(self).registrations@) == recorded(old(self).registrations@).push(
                RegistrationModel { kind: kind@, name: name@, arguments: arguments@ },
            ),
            final(self).handles == old(self).handles,
            final(self).next_handle == old(self).next_handle,
    {
        let ghost before = recorded(self.registrations@);
        let registration: Registration = Registration {
            kind: kind.to_owned(),
            name: name.to_owned(),
            arguments: copy_arguments(arguments),
        };
        self.registrations.push(registration);
        assert(recorded(self.registrations@) =~= before.push(registration@));
    }

    /// The registration of a free function by that name.
    pub fn function(&self, name: &str) -> (found: Option<&Registration>)
        ensures
            first_where(
                self.registrations@,
                found,
                |registration: RegistrationModel| is_function(registration, name@),
            ),
    {
        let mut i: usize = 0;
        while i < self.registrations.len()
            invariant
                i <= self.registrations@.len(),
                forall|j: int|
                    0 <= j < i ==> !is_function((#[trigger] self.registrations@[j])@, name@),
            decreases self.registrations@.len() - i,
        {
            let entry: &Registration = &self.registrations[i];
            if same_text(entry.kind.as_str(), "function") && same_text(entry.name.as_str(), name) {
                assert(self.registrations@[i as int] == *entry);
                return Some(entry);
            }
            i = i + 1;
        }
        None
    }

    /// The registration of a method by that name, whatever class it is on.
    ///
    /// A method's registration does not carry its class's name, only the type id,
    /// so a module with two classes sharing a method name is ambiguous. It returns
    /// the first.
    pub fn method(&self, name: &str) -> (found: Option<&Registration>)
        ensures
            first_where(
                self.registrations@,
                found,
                |registration: RegistrationModel| is_method(registration, name@),
            ),
    {
        let mut i: usize = 0;
        while i < self.registrations.len()
            invariant
                i <= self.registrations@.len(),
                forall|j: int|
                    0 <= j < i ==> !is_method((#[trigger] self.registrations@[j])@, name@),
            decreases self.registrations@.len() - i,
        {
            let entry: &Registration = &self.registrations[i];
            if text_ends(entry.kind.as_str(), "class_function") && same_text(
                entry.name.as_str(),
                name,
            ) {
                assert(self.registrations@[i as int] == *entry);
                return Some(entry);
            }
            i = i + 1;
        }
        None
    }

    /// `_emval_take_value`: a new handle, with one reference.
    pub fn take_value(&mut self) -> (handle: i32)
        requires
            old(self).next_handle < i32::MAX,
        ensures
            handle == new_handle(old(self).next_handle),
            final(self).next_handle == handle + 1,
            final(self).handles@ == old(self).handles@.insert(handle, 1),
            final(self).registrations == old(self).registrations,
            !was_given(old(self).next_handle, handle),
            was_given(final(self).next_handle, handle),
            old(self).holds_what_it_gave() ==> final(self).holds_what_it_gave(),
    {
        if self.next_handle < 1 {
            self.next_handle = 1;
        }
        let handle: i32 = self.next_handle;
        self.next_handle = self.next_handle + 1;
        self.handles.insert(handle, 1);
        handle
    }

    /// `_emval_incref`. Null is not a handle.
    pub fn incref(&mut self, handle: i32)
        requires
            handle != 0 ==> references(old(self).handles@, handle) < i32::MAX,
        ensures
            final(self).handles@ == with_reference(old(self).handles@, handle),
            final(self).next_handle == old(self).next_handle,
            final(self).registrations == old(self).registrations,
            old(self).holds_what_it_gave() && (handle == 0 || was_given(
                old(self).next_handle,
                handle,
            )) ==> final(self).holds_what_it_gave(),
    {
        if handle != 0 {
            let count: i32 = match self.handles.get(&handle) {
                Some(count) => *count,
                None => 0,
            };
            self.handles.insert(handle, count + 1);
        }
    }

    /// `_emval_decref`. A handle whose count reaches zero is released.
    pub fn decref(&mut self, handle: i32)
        requires
            handle != 0 ==> references(old(self).handles@, handle) > i32::MIN,
        ensures
            final(self).handles@ == without_reference(old(self).handles@, handle),
            final(self).next_handle == old(self).next_handle,
            final(self).registrations == old(self).registrations,
            old(self).holds_what_it_gave() ==> final(self).holds_what_it_gave(),
    {
        if handle == 0 {
            return;
        }
        let count: i32 = match self.handles.get(&handle) {
            Some(count) => *count - 1,
            None => {
                return;
            },
        };
        if count <= 0 {
            self.handles.remove(&handle);
        } else {
            self.handles.insert(handle, count);
        }
    }
}

} // verus!
