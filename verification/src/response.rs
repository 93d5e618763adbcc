//! What executing an instruction or a line answers: messages for the user
//! and the control transfer that follows.
use vstd::prelude::*;
use crate::fmt::{digits, push_char, push_str, push_u64};
use crate::model::{BlockType, Expression, Index};
use crate::ops::FloatCall;

verus! {

/// The control transfer an instruction asks for.
#[derive(Debug, PartialEq, Eq)]
pub enum Control {
    /// Call a function.
    ExecFunc(Index),
    /// Run a block of the given type.
    ExecBlock(BlockType, Expression),
    /// Run a loop of the given type.
    ExecLoop(BlockType, Expression),
    /// Branch to the end of an enclosing block (or the start of a loop).
    Branch(Index),
    /// Return from the current function.
    Return,
    /// Go on with the next instruction.
    Proceed,
}

impl Control {
    /// Whether a block ending with this control transfer must leave exactly
    /// its results: `false` for `return` and branches, which may leave more.
    pub open spec fn spec_requires_empty(&self) -> bool {
        match self {
            Control::Return => false,
            Control::Branch(_) => false,
            _ => true,
        }
    }

    fn requires_empty(&self) -> (r: bool)
        ensures
            r == self.spec_requires_empty(),
    {
        match self {
            Control::Return => false,
            Control::Branch(_) => false,
            _ => true,
        }
    }
}

/// The lines joined by newlines.
pub open spec fn join_lines(lines: Seq<Seq<char>>) -> Seq<char>
    decreases lines.len(),
{
    if lines.len() == 0 {
        Seq::empty()
    } else if lines.len() == 1 {
        lines[0]
    } else {
        join_lines(lines.drop_last()) + seq!['\n'] + lines.last()
    }
}

/// The message announcing that a `kind` (local, func) got position `i` and,
/// optionally, a name: `"kind ;i;"` or `"kind ;i; name"`.
pub open spec fn index_message(kind: Seq<char>, i: nat, id: Option<Seq<char>>) -> Seq<char> {
    let head = kind + seq![' ', ';'] + digits(i) + seq![';'];
    match id {
        Some(name) => head + seq![' '] + name,
        None => head,
    }
}

/// Messages for the user and the control transfer that follows.
pub struct Response {
    pub control: Control,
    pub requires_empty: bool,
    pub messages: Vec<String>,
    /// The request to the float arithmetic that the answer rests on, with
    /// what the arithmetic answered, if there was one.
    pub float_call: Ghost<Option<FloatCall>>,
}

impl Response {
    /// The messages, in order.
    pub open spec fn messages(&self) -> Seq<Seq<char>> {
        self.messages@.map_values(|m: String| m@)
    }

    /// No message; go on; the block must end with exactly its results.
    pub fn new() -> (r: Response)
        ensures
            r.messages() == Seq::<Seq<char>>::empty(),
            r.control == Control::Proceed,
            r.requires_empty,
            r.float_call@ is None,
    {
        let r = Response { messages: Vec::new(), control: Control::Proceed, requires_empty: true, float_call: Ghost(None) };
        assert(r.messages() =~= Seq::<Seq<char>>::empty());
        r
    }

    /// The single message announcing that a `ty` got position `i` (and the
    /// name `id`).
    pub fn new_index(ty: &str, i: usize, id: Option<String>) -> (r: Response)
        ensures
            r.messages() == seq![index_message(ty@, i as nat, match id { Some(s) => Some(s@), None => None })],
            r.control == Control::Proceed,
            r.requires_empty,
    {
        let mut s = String::from_str(ty);
        push_char(&mut s, ' ');
        push_char(&mut s, ';');
        push_u64(&mut s, i as u64);
        push_char(&mut s, ';');
        let ghost head = ty@ + seq![' ', ';'] + digits(i as nat) + seq![';'];
        assert(s@ == head);
        match id {
            Some(name) => {
                push_char(&mut s, ' ');
                push_str(&mut s, &name);
                assert(s@ == head + seq![' '] + name@);
            },
            None => {},
        }
        Response::new_message(s)
    }

    /// Appends the messages of `other` and takes over its control transfer.
    pub fn extend(&mut self, other: Response)
        ensures
            final(self).messages() == old(self).messages() + other.messages(),
            final(self).control == other.control,
            final(self).requires_empty == other.requires_empty,
    {
        let mut more = other.messages;
        self.messages.append(&mut more);
        self.control = other.control;
        self.requires_empty = other.requires_empty;
        assert(self.messages() =~= old(self).messages() + other.messages());
    }

    /// Appends a message.
    pub fn add_message(&mut self, message: String)
        ensures
            final(self).messages() == old(self).messages().push(message@),
            final(self).control == old(self).control,
            final(self).requires_empty == old(self).requires_empty,
    {
        self.messages.push(message);
        assert(self.messages() =~= old(self).messages().push(message@));
    }

    /// The messages joined by newlines.
    pub fn message(&self) -> (s: String)
        ensures
            s@ == join_lines(self.messages()),
    {
        let mut s = String::new();
        let mut i: usize = 0;
        while i < self.messages.len()
            invariant
                i <= self.messages@.len(),
                s@ == join_lines(self.messages().subrange(0, i as int)),
            decreases self.messages@.len() - i,
        {
            let ghost before = self.messages().subrange(0, i as int);
            if i > 0 {
                push_char(&mut s, '\n');
            }
            push_str(&mut s, &self.messages[i]);
            proof {
                let after = self.messages().subrange(0, i + 1);
                assert(after.drop_last() == before);
                assert(after.last() == self.messages@[i as int]@);
                if i > 0 {
                    assert(join_lines(after) == join_lines(before) + seq!['\n'] + after.last());
                } else {
                    assert(join_lines(before) == Seq::<char>::empty());
                    assert(join_lines(after) == after[0]);
                }
            }
            i = i + 1;
        }
        assert(self.messages().subrange(0, self.messages@.len() as int) == self.messages());
        s
    }

    /// No message, the given control transfer.
    pub fn new_ctrl(ctrl: Control) -> (r: Response)
        ensures
            r.messages() == Seq::<Seq<char>>::empty(),
            r.requires_empty == ctrl.spec_requires_empty(),
            r.control == ctrl,
            r.float_call@ is None,
    {
        let requires_empty = ctrl.requires_empty();
        let r = Response { messages: Vec::new(), control: ctrl, requires_empty, float_call: Ghost(None) };
        assert(r.messages() =~= Seq::<Seq<char>>::empty());
        r
    }

    fn new_message(message: String) -> (r: Response)
        ensures
            r.messages() == seq![message@],
            r.control == Control::Proceed,
            r.requires_empty,
    {
        let mut messages: Vec<String> = Vec::new();
        messages.push(message);
        let r = Response { messages, control: Control::Proceed, requires_empty: true, float_call: Ghost(None) };
        assert(r.messages() =~= seq![message@]);
        r
    }
}

} // verus!
