//! Rendering of an ingested message into the text that is sent: display
//! names defaulting to a placeholder and stripped of embedded newlines,
//! sub-messages trimmed, and the fixed section layout of the outgoing
//! text.

use vstd::prelude::*;

verus! {

/// The placeholder shown when a display name is blank.
pub open spec fn placeholder_name() -> Seq<char> {
    "НВ"@
}

/// `s` with every embedded newline removed.
pub open spec fn strip_newlines(s: Seq<char>) -> Seq<char>
    decreases s.len(),
{
    if s.len() == 0 {
        Seq::empty()
    } else {
        let rest = strip_newlines(s.drop_first());
        if s[0] == '\n' || s[0] == '\r' {
            rest
        } else {
            seq![s[0]] + rest
        }
    }
}

/// What `Name::new` produces: the placeholder for a blank name, the
/// newline-stripped name otherwise.
pub open spec fn normalized_name(raw: Seq<char>) -> Seq<char> {
    if raw.len() == 0 {
        placeholder_name()
    } else {
        strip_newlines(raw)
    }
}

/// Removing newlines commutes with appending one character.
proof fn lemma_strip_newlines_push(s: Seq<char>, c: char)
    ensures
        strip_newlines(s.push(c)) == strip_newlines(s) + (if c == '\n' || c == '\r' {
            Seq::<char>::empty()
        } else {
            seq![c]
        }),
    decreases s.len(),
{
    let t = s.push(c);
    if s.len() == 0 {
        assert(t.drop_first() =~= Seq::<char>::empty());
        assert(strip_newlines(t.drop_first()) == Seq::<char>::empty());
        if c == '\n' || c == '\r' {
            assert(strip_newlines(t) =~= Seq::<char>::empty());
        } else {
            assert(strip_newlines(t) =~= seq![c]);
            assert(strip_newlines(s) + seq![c] =~= seq![c]);
        }
    } else {
        assert(t[0] == s[0]);
        assert(t.drop_first() =~= s.drop_first().push(c));
        lemma_strip_newlines_push(s.drop_first(), c);
        if c == '\n' || c == '\r' {
        } else {
            if s[0] == '\n' || s[0] == '\r' {
            } else {
                assert(seq![s[0]] + (strip_newlines(s.drop_first()) + seq![c]) =~= (seq![s[0]]
                    + strip_newlines(s.drop_first())) + seq![c]);
            }
        }
    }
}

/// A display name, normalized at construction.
#[derive(Debug, Clone)]
pub struct Name(pub String);

impl View for Name {
    type V = Seq<char>;

    open spec fn view(&self) -> Seq<char> {
        self.0@
    }
}

impl Name {
    /// Normalize a raw display name: blank becomes the placeholder, and
    /// embedded newlines are stripped.
    pub fn new(name: &str) -> (r: Name)
        ensures
            r@ == normalized_name(name@),
    {
        if name.unicode_len() == 0 {
            let s = String::from_str("НВ");
            proof {
                assert(name@ =~= Seq::<char>::empty());
            }
            Name(s)
        } else {
            let mut out = String::new();
            let n = name.unicode_len();
            proof {
                assert(name@.take(0) =~= Seq::<char>::empty());
            }
            let mut i: usize = 0;
            while i < n
                invariant
                    i <= n,
                    n == name@.len(),
                    out@ == strip_newlines(name@.take(i as int)),
                decreases n - i,
            {
                let c = name.get_char(i);
                proof {
                    assert(name@.take(i + 1) =~= name@.take(i as int).push(name@[i as int]));
                    lemma_strip_newlines_push(name@.take(i as int), name@[i as int]);
                }
                if c != '\n' && c != '\r' {
                    let piece = name.substring_char(i, i + 1);
                    proof {
                        assert(piece@ =~= seq![name@[i as int]]);
                    }
                    out.append(piece);
                }
                i += 1;
            }
            proof {
                assert(name@.take(name@.len() as int) =~= name@);
            }
            Name(out)
        }
    }

    pub fn as_str(&self) -> (r: &str)
        ensures
            r@ == self@,
    {
        self.0.as_str()
    }
}

/// Whitespace recognized when trimming sub-message text.
pub open spec fn is_space(c: char) -> bool {
    c == ' ' || c == '\t' || c == '\n' || c == '\r'
}

/// `s` without leading whitespace.
pub open spec fn trim_front(s: Seq<char>) -> Seq<char>
    decreases s.len(),
{
    if s.len() == 0 {
        Seq::empty()
    } else if is_space(s[0]) {
        trim_front(s.drop_first())
    } else {
        s
    }
}

/// `s` without trailing whitespace.
pub open spec fn trim_back(s: Seq<char>) -> Seq<char>
    decreases s.len(),
{
    if s.len() == 0 {
        Seq::empty()
    } else if is_space(s.last()) {
        trim_back(s.drop_last())
    } else {
        s
    }
}

/// `s` without leading and trailing whitespace.
pub open spec fn trim_spec(s: Seq<char>) -> Seq<char> {
    trim_front(trim_back(s))
}

/// Skipping a leading space does not change the trimmed text.
proof fn lemma_trim_front_skip(s: Seq<char>, i: int)
    requires
        0 <= i < s.len(),
        forall|j: int| 0 <= j <= i ==> is_space(s[j]),
    ensures
        trim_front(s) == trim_front(s.skip(i + 1)),
    decreases i,
{
    assert(s.skip(1) =~= s.drop_first());
    if i == 0 {
    } else {
        assert(forall|j: int|
            0 <= j <= i - 1 ==> is_space(#[trigger] s.drop_first()[j]) == is_space(s[j + 1]));
        lemma_trim_front_skip(s.drop_first(), i - 1);
        assert(s.drop_first().skip(i) =~= s.skip(i + 1));
    }
}

/// Dropping a trailing space does not change the back-trimmed text.
proof fn lemma_trim_back_take(s: Seq<char>, i: int)
    requires
        0 <= i < s.len(),
        forall|j: int| i <= j < s.len() ==> is_space(s[j]),
    ensures
        trim_back(s) == trim_back(s.take(i)),
    decreases s.len() - i,
{
    assert(is_space(s.last()));
    assert(s.drop_last() =~= s.take(s.len() - 1));
    if i == s.len() - 1 {
    } else {
        assert(forall|j: int|
            i <= j < s.take(s.len() - 1).len() ==> is_space(#[trigger] s.take(s.len() - 1)[j]));
        lemma_trim_back_take(s.take(s.len() - 1), i);
        assert(s.take(s.len() - 1).take(i) =~= s.take(i));
    }
}

/// `s` with leading and trailing whitespace removed.
pub fn trim(s: &str) -> (r: String)
    ensures
        r@ == trim_spec(s@),
{
    let n = s.unicode_len();
    proof {
        assert(s@.take(n as int) =~= s@);
    }
    let mut end: usize = n;
    let mut scanning = true;
    while end > 0 && scanning
        invariant
            end <= n,
            n == s@.len(),
            trim_back(s@) == trim_back(s@.take(end as int)),
            forall|j: int| end <= j < n ==> is_space(s@[j]),
            !scanning ==> end > 0 && !is_space(s@[end - 1]),
        decreases end + (if scanning {
            1int
        } else {
            0int
        }),
    {
        let c = s.get_char(end - 1);
        if c == ' ' || c == '\t' || c == '\n' || c == '\r' {
            proof {
                lemma_trim_back_take(s@, end - 1);
            }
            end -= 1;
        } else {
            scanning = false;
        }
    }
    if end == 0 {
        proof {
            assert(s@.take(0) =~= Seq::<char>::empty());
            assert(trim_front(trim_back(s@)) =~= Seq::<char>::empty());
        }
        return String::new();
    }
    let trimmed_back: Ghost<Seq<char>> = Ghost(s@.take(end as int));
    proof {
        assert(trim_back(s@.take(end as int)) == s@.take(end as int)) by {
            assert(!is_space(s@.take(end as int).last()));
        }
    }
    proof {
        assert(trimmed_back@.skip(0) =~= trimmed_back@);
    }
    let mut start: usize = 0;
    let mut advancing = true;
    while start < end && advancing
        invariant
            start <= end,
            end <= n,
            n == s@.len(),
            trimmed_back@ == s@.take(end as int),
            trim_back(s@) == trimmed_back@,
            trim_front(trimmed_back@) == trim_front(trimmed_back@.skip(start as int)),
            !advancing ==> start < end && !is_space(s@[start as int]),
        decreases (end - start) + (if advancing {
            1int
        } else {
            0int
        }),
    {
        let c = s.get_char(start);
        if c == ' ' || c == '\t' || c == '\n' || c == '\r' {
            proof {
                assert(forall|j: int|
                    0 <= j < trimmed_back@.len() ==> trimmed_back@[j] == s@[j]);
                assert(trim_front(trimmed_back@.skip(start as int)) == trim_front(
                    trimmed_back@.skip(start + 1),
                )) by {
                    assert(trimmed_back@.skip(start as int).drop_first() =~= trimmed_back@.skip(
                        start + 1,
                    ));
                    assert(trimmed_back@.skip(start as int)[0] == trimmed_back@[start as int]);
                }
            }
            start += 1;
        } else {
            advancing = false;
        }
    }
    proof {
        assert(forall|j: int| 0 <= j < trimmed_back@.len() ==> trimmed_back@[j] == s@[j]);
        if start < end {
            assert(trim_front(trimmed_back@.skip(start as int)) == trimmed_back@.skip(
                start as int,
            )) by {
                assert(trimmed_back@.skip(start as int)[0] == trimmed_back@[start as int]);
                assert(!is_space(trimmed_back@[start as int]));
            }
        } else {
            assert(trimmed_back@.skip(start as int) =~= Seq::<char>::empty());
        }
    }
    let r = s.substring_char(start, end);
    proof {
        assert(r@ =~= trimmed_back@.skip(start as int));
    }
    r.to_owned()
}

/// One `{datetime, text}` sub-message pair; the text is trimmed at
/// construction.
#[derive(Debug, Clone)]
pub struct IndividualMessage {
    pub datetime: String,
    pub message: String,
}

impl IndividualMessage {
    pub fn new(datetime: String, message: &str) -> (r: IndividualMessage)
        ensures
            r.datetime == datetime,
            r.message@ == trim_spec(message@),
    {
        let trimmed = trim(message);
        IndividualMessage { datetime, message: trimmed }
    }
}

/// An ingested message: its grouped sub-messages, optional comment,
/// display names, and descriptive fields.
#[derive(Debug, Clone)]
pub struct MessageInner {
    pub message: Vec<IndividualMessage>,
    pub comment: Option<String>,
    pub reciever: Name,
    pub sender: Name,
    pub datetime: String,
    pub frequency: String,
    pub location: String,
    pub title: String,
    pub source: String,
    pub network: Option<u64>,
}

/// The sub-messages' texts, each followed by a newline.
pub open spec fn joined_messages(msgs: Seq<IndividualMessage>) -> Seq<char>
    decreases msgs.len(),
{
    if msgs.len() == 0 {
        Seq::empty()
    } else {
        joined_messages(msgs.drop_last()) + msgs.last().message@ + "\n"@
    }
}

/// The trailing comment section: present only when the comment exists and
/// is non-empty.
pub open spec fn comment_part(comment: Option<String>) -> Seq<char> {
    match comment {
        Some(c) => if c@.len() > 0 {
            "Comment: "@ + c@
        } else {
            Seq::empty()
        },
        None => Seq::empty(),
    }
}

/// The rendered message text with explicit name slots: title, location
/// and datetime each followed by a blank line, the receiver and sender
/// lines, a blank line, the sub-messages, and the comment section.
pub open spec fn render_with_names(m: MessageInner, r: Seq<char>, s: Seq<char>) -> Seq<char> {
    m.title@ + "\n\n"@ + m.location@ + "\n\n"@ + m.datetime@ + "\n\n"@ + "Receiver: "@ + r + "\n"@
        + "Sender: "@ + s + "\n\n"@ + joined_messages(m.message@) + comment_part(m.comment)
}

/// The rendered message text.
pub open spec fn render_spec(m: MessageInner) -> Seq<char> {
    render_with_names(m, m.reciever@, m.sender@)
}

impl MessageInner {
    /// Render this message into the outgoing text.
    pub fn render(&self) -> (r: String)
        ensures
            r@ == render_spec(*self),
    {
        let mut out = self.title.clone();
        out.append("\n\n");
        out.append(self.location.as_str());
        out.append("\n\n");
        out.append(self.datetime.as_str());
        out.append("\n\n");
        out.append("Receiver: ");
        out.append(self.reciever.as_str());
        out.append("\n");
        out.append("Sender: ");
        out.append(self.sender.as_str());
        out.append("\n\n");
        let ghost head = out@;
        let mut i: usize = 0;
        proof {
            assert(self.message@.take(0) =~= Seq::<IndividualMessage>::empty());
        }
        while i < self.message.len()
            invariant
                i <= self.message@.len(),
                out@ == head + joined_messages(self.message@.take(i as int)),
            decreases self.message@.len() - i,
        {
            proof {
                let taken = self.message@.take(i + 1);
                assert(taken.drop_last() =~= self.message@.take(i as int));
                assert(taken.last() == self.message@[i as int]);
            }
            out.append(self.message[i].message.as_str());
            out.append("\n");
            proof {
                assert((head + joined_messages(self.message@.take(i as int)))
                    + self.message@[i as int].message@ + "\n"@ =~= head + (joined_messages(
                    self.message@.take(i as int),
                ) + self.message@[i as int].message@ + "\n"@));
            }
            i += 1;
        }
        proof {
            assert(self.message@.take(self.message@.len() as int) =~= self.message@);
        }
        match &self.comment {
            Some(c) => {
                if c.as_str().unicode_len() > 0 {
                    out.append("Comment: ");
                    out.append(c.as_str());
                    proof {
                        assert(out@ =~= render_spec(*self));
                    }
                } else {
                    proof {
                        assert(out@ + Seq::<char>::empty() =~= out@);
                        assert(out@ =~= render_spec(*self));
                    }
                }
            },
            None => {
                proof {
                    assert(out@ + Seq::<char>::empty() =~= out@);
                    assert(out@ =~= render_spec(*self));
                }
            },
        }
        out
    }

    /// The rendered text with the message's frequency annotation
    /// prefixed.
    pub fn with_frequency(&self) -> (r: String)
        ensures
            r@ == self.frequency@ + "\n"@ + render_spec(*self),
    {
        let mut out = self.frequency.clone();
        out.append("\n");
        let rendered = self.render();
        out.append(rendered.as_str());
        out
    }
}

/// A message whose receiver and sender names were both blank renders with
/// the placeholder name in both name positions.
pub proof fn lemma_blank_names_render_placeholder(
    m: MessageInner,
    raw_reciever: Seq<char>,
    raw_sender: Seq<char>,
)
    requires
        raw_reciever.len() == 0,
        raw_sender.len() == 0,
        m.reciever@ == normalized_name(raw_reciever),
        m.sender@ == normalized_name(raw_sender),
    ensures
        m.reciever@ == placeholder_name(),
        m.sender@ == placeholder_name(),
        render_spec(m) == render_with_names(m, placeholder_name(), placeholder_name()),
{
}

} // verus!
