//! Acceptance policy for the ingestion feed. A payload arrives either as
//! structured messages or, when parsing failed, as a raw body; a parse
//! failure is never rejected but downgraded to one freeform message that
//! is forced into manual review.

use vstd::prelude::*;

use crate::render::render_spec;
use crate::render::MessageInner;

verus! {

/// How ingested payloads are turned into outgoing text: rendered plainly,
/// rendered with the frequency annotation prefixed, or passed through
/// verbatim.
#[derive(Debug, Clone, Copy, PartialEq, Eq, Structural)]
pub enum SendMode {
    Standard,
    Frequency,
    Plain,
}

/// One message accepted for sending: its outgoing text, its frequency
/// annotation if it has one, the network tag routing resolves against,
/// and whether automatic sending must be overridden so the operator
/// reviews it first.
#[derive(Debug, Clone)]
pub struct AcceptedMessage {
    pub content: String,
    pub freq: Option<String>,
    pub network: Option<u64>,
    pub autosend_overwrite: bool,
}

/// Turn an ingested payload into the messages to send. `parsed` carries
/// the structured messages when the payload parsed, `raw` is the payload
/// body as received. A payload that did not parse becomes a single
/// freeform message marked for manual review; in `Plain` mode the body is
/// likewise passed through, but without that mark.
pub fn accept_messages(mode: SendMode, parsed: Option<Vec<MessageInner>>, raw: String) -> (r: Vec<
    AcceptedMessage,
>)
    ensures
        parsed is None ==> {
            &&& r@.len() == 1
            &&& r@[0].content == raw
            &&& r@[0].freq is None
            &&& r@[0].network is None
            &&& r@[0].autosend_overwrite
        },
        parsed is Some && mode == SendMode::Plain ==> {
            &&& r@.len() == 1
            &&& r@[0].content == raw
            &&& r@[0].freq is None
            &&& r@[0].network is None
            &&& !r@[0].autosend_overwrite
        },
        parsed is Some && mode != SendMode::Plain ==> {
            &&& r@.len() == parsed.unwrap()@.len()
            &&& (forall|i: int|
                0 <= i < r@.len() ==> (#[trigger] r@[i]).content@ == (if mode
                    == SendMode::Standard {
                    render_spec(parsed.unwrap()@[i])
                } else {
                    parsed.unwrap()@[i].frequency@ + "\n"@ + render_spec(parsed.unwrap()@[i])
                }))
            &&& (forall|i: int|
                0 <= i < r@.len() ==> (#[trigger] r@[i]).freq is Some && r@[i].freq.unwrap()@
                    == parsed.unwrap()@[i].frequency@)
            &&& (forall|i: int|
                0 <= i < r@.len() ==> (#[trigger] r@[i]).network == parsed.unwrap()@[i].network)
            &&& (forall|i: int| 0 <= i < r@.len() ==> !(#[trigger] r@[i]).autosend_overwrite)
        },
{
    match parsed {
        None => {
            let mut out: Vec<AcceptedMessage> = Vec::new();
            out.push(
                AcceptedMessage { content: raw, freq: None, network: None, autosend_overwrite: true },
            );
            out
        },
        Some(messages) => {
            match mode {
                SendMode::Plain => {
                    let mut out: Vec<AcceptedMessage> = Vec::new();
                    out.push(
                        AcceptedMessage {
                            content: raw,
                            freq: None,
                            network: None,
                            autosend_overwrite: false,
                        },
                    );
                    out
                },
                _ => {
                    let frequency_mode = matches!(mode, SendMode::Frequency);
                    let mut out: Vec<AcceptedMessage> = Vec::new();
                    let mut i: usize = 0;
                    while i < messages.len()
                        invariant
                            i <= messages@.len(),
                            out@.len() == i,
                            frequency_mode == (mode == SendMode::Frequency),
                            mode != SendMode::Plain,
                            forall|j: int|
                                0 <= j < i ==> (#[trigger] out@[j]).content@ == (if mode
                                    == SendMode::Standard {
                                    render_spec(messages@[j])
                                } else {
                                    messages@[j].frequency@ + "\n"@ + render_spec(messages@[j])
                                }),
                            forall|j: int|
                                0 <= j < i ==> (#[trigger] out@[j]).freq is Some
                                    && out@[j].freq.unwrap()@ == messages@[j].frequency@,
                            forall|j: int|
                                0 <= j < i ==> (#[trigger] out@[j]).network == messages@[j].network,
                            forall|j: int| 0 <= j < i ==> !(#[trigger] out@[j]).autosend_overwrite,
                        decreases messages@.len() - i,
                    {
                        let m = &messages[i];
                        let content = if frequency_mode {
                            m.with_frequency()
                        } else {
                            m.render()
                        };
                        out.push(
                            AcceptedMessage {
                                content,
                                freq: Some(m.frequency.clone()),
                                network: m.network,
                                autosend_overwrite: false,
                            },
                        );
                        i += 1;
                    }
                    out
                },
            }
        },
    }
}

/// Whether an accepted message is sent automatically: only when the
/// operator enabled automatic sending and the message was not forced into
/// manual review.
pub fn autosend_effective(autosend: bool, message: &AcceptedMessage) -> (r: bool)
    ensures
        r == (autosend && !message.autosend_overwrite),
{
    autosend && !message.autosend_overwrite
}

} // verus!
