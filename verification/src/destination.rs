//! Destinations: one target group on one of the two external messaging
//! backends, identified by a fixed-size key on the first backend and by an
//! opaque variable-length identifier on the second.

use vstd::prelude::*;

verus! {

/// Identifier of one group on one backend: a fixed 32-byte key for the
/// Signal backend, an opaque variable-length identifier for the Whatsapp
/// backend.
#[derive(Debug)]
pub enum Key {
    Signal([u8; 32]),
    Whatsapp(String),
}

impl Clone for Key {
    fn clone(&self) -> (res: Key)
        ensures
            res == *self,
    {
        match self {
            Key::Signal(k) => Key::Signal(*k),
            Key::Whatsapp(s) => Key::Whatsapp(s.clone()),
        }
    }
}

/// Spec-level shape of a `Key`: the backend tag with the identifier's
/// mathematical contents.
pub enum KeyModel {
    Signal(Seq<u8>),
    Whatsapp(Seq<char>),
}

impl View for Key {
    type V = KeyModel;

    open spec fn view(&self) -> KeyModel {
        match self {
            Key::Signal(k) => KeyModel::Signal(k@),
            Key::Whatsapp(s) => KeyModel::Whatsapp(s@),
        }
    }
}

impl Key {
    pub fn is_signal(&self) -> (r: bool)
        ensures
            r == (self@ is Signal),
    {
        matches!(self, Key::Signal(_))
    }

    pub fn is_whatsapp(&self) -> (r: bool)
        ensures
            r == (self@ is Whatsapp),
    {
        matches!(self, Key::Whatsapp(_))
    }

    /// Value equality of two keys: same backend and same identifier contents.
    pub fn key_eq(&self, other: &Key) -> (r: bool)
        ensures
            r == (self@ == other@),
    {
        match self {
            Key::Signal(a) => match other {
                Key::Signal(b) => {
                    let mut i: usize = 0;
                    while i < 32
                        invariant
                            i <= 32,
                            forall|j: int| 0 <= j < i ==> a@[j] == b@[j],
                            self@ == KeyModel::Signal(a@),
                            other@ == KeyModel::Signal(b@),
                        decreases 32 - i,
                    {
                        if a[i] != b[i] {
                            return false;
                        }
                        i += 1;
                    }
                    proof {
                        assert(a@ =~= b@);
                    }
                    true
                },
                Key::Whatsapp(_) => false,
            },
            Key::Whatsapp(a) => match other {
                Key::Whatsapp(b) => a.eq(b),
                Key::Signal(_) => false,
            },
        }
    }
}

} // verus!
