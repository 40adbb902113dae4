use vstd::prelude::*;

verus! {

/// The application-level message a decoded frame carries, named after the
/// frame's opcode: text, binary, ping, pong, close, or anything else.
#[derive(Clone, Debug)]
pub enum Message {
    Binary(Vec<u8>),
    Text(String),
    Ping(String),
    Pong(String),
    Close,
    Unknown,
}

impl Message {
    /// What equality of two messages means: same variant, equal contents.
    pub open spec fn eq_spec_def(&self, other: &Message) -> bool {
        match (self, other) {
            (Message::Binary(a), Message::Binary(b)) => a@ == b@,
            (Message::Text(a), Message::Text(b)) => a@ == b@,
            (Message::Ping(a), Message::Ping(b)) => a@ == b@,
            (Message::Pong(a), Message::Pong(b)) => a@ == b@,
            (Message::Close, Message::Close) => true,
            (Message::Unknown, Message::Unknown) => true,
            _ => false,
        }
    }
}

impl PartialEq for Message {
    fn eq(&self, other: &Message) -> (r: bool) {
        match (self, other) {
            (Message::Binary(a), Message::Binary(b)) => {
                let r = vecs_eq(a, b);
                r
            },
            (Message::Text(a), Message::Text(b)) => *a == *b,
            (Message::Ping(a), Message::Ping(b)) => *a == *b,
            (Message::Pong(a), Message::Pong(b)) => *a == *b,
            (Message::Close, Message::Close) => true,
            (Message::Unknown, Message::Unknown) => true,
            _ => false,
        }
    }
}

impl vstd::std_specs::cmp::PartialEqSpecImpl for Message {
    open spec fn obeys_eq_spec() -> bool {
        true
    }

    open spec fn eq_spec(&self, other: &Message) -> bool {
        self.eq_spec_def(other)
    }
}

/// Byte-vector equality, spelled out so the contract speaks of the views.
fn vecs_eq(a: &Vec<u8>, b: &Vec<u8>) -> (r: bool)
    ensures
        r == (a@ == b@),
{
    if a.len() != b.len() {
        assert(a@ != b@);
        return false;
    }
    let n = a.len();
    let mut i: usize = 0;
    while i < n
        invariant
            n == a@.len() == b@.len(),
            i <= n,
            forall|j: int| 0 <= j < i ==> a@[j] == b@[j],
        decreases n - i,
    {
        if a[i] != b[i] {
            return false;
        }
        i += 1;
    }
    assert(a@ =~= b@);
    true
}

} // verus!
