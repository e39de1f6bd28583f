//! The lines that boards print about pulses, as the host reads them.

use vstd::prelude::*;

use crate::text::{chars_of, parse_unsigned, position_of, starts_with, string_of, text_is, white,
    word_end};

verus! {

/// One pulse that a board reported.
#[derive(Clone, Debug)]
pub enum Event {
    /// The board sent a pulse.
    Tx { device: usize, mac: String, seq: u32, synced_ns: u128 },
    /// The board captured a pulse.
    Rx { device: usize, mac: String, synced_ns: u128 },
}

/// What an event says.
pub enum EventView {
    Tx { device: nat, mac: Seq<char>, seq: nat, synced_ns: nat },
    Rx { device: nat, mac: Seq<char>, synced_ns: nat },
}

impl View for Event {
    type V = EventView;

    open spec fn view(&self) -> EventView {
        match self {
            Event::Tx { device, mac, seq, synced_ns } => EventView::Tx {
                device: *device as nat,
                mac: mac@,
                seq: *seq as nat,
                synced_ns: *synced_ns as nat,
            },
            Event::Rx { device, mac, synced_ns } => EventView::Rx {
                device: *device as nat,
                mac: mac@,
                synced_ns: *synced_ns as nat,
            },
        }
    }
}

/// The fields of a line that matter.
pub struct Fields {
    pub mac: Option<Seq<char>>,
    pub seq: Option<nat>,
    pub synced_ns: Option<nat>,
}

/// The fields after one more `key=value`. The last one of a key counts, also
/// where it is no number; but a captured pulse without a time leaves the field
/// as it was.
pub open spec fn with_field(f: Fields, key: Seq<char>, value: Seq<char>, captured: bool) -> Fields {
    if key == "mac"@ {
        Fields { mac: Some(value), ..f }
    } else if key == "seq"@ && !captured {
        Fields { seq: crate::text::unsigned_value(value, 10, u32::MAX as nat), ..f }
    } else if key == "synced_ns"@ && !(captured && value == "NONE"@) {
        Fields { synced_ns: crate::text::unsigned_value(value, 10, u128::MAX as nat), ..f }
    } else {
        f
    }
}

/// The fields of a run of words, if each of them is a `key=value`.
pub open spec fn fields_of(words: Seq<Seq<char>>, captured: bool) -> Option<Fields>
    decreases words.len(),
{
    if words.len() == 0 {
        Some(Fields { mac: None, seq: None, synced_ns: None })
    } else {
        match (
            fields_of(words.drop_last(), captured),
            crate::text::split_once(words.last(), '='),
        ) {
            (Some(f), Some((k, v))) => Some(with_field(f, k, v, captured)),
            _ => None,
        }
    }
}

/// The event that a line reports, if it reports one.
pub open spec fn event_of(device: nat, line: Seq<char>) -> Option<EventView> {
    if "pulse_tx "@.is_prefix_of(line) {
        match fields_of(crate::text::words(line.skip("pulse_tx "@.len() as int)), false) {
            Some(Fields { mac: Some(mac), seq: Some(seq), synced_ns: Some(synced_ns) }) => Some(
                EventView::Tx { device, mac, seq, synced_ns },
            ),
            _ => None,
        }
    } else if "pulse_rx "@.is_prefix_of(line) {
        match fields_of(crate::text::words(line.skip("pulse_rx "@.len() as int)), true) {
            Some(Fields { mac: Some(mac), synced_ns: Some(synced_ns), .. }) => Some(
                EventView::Rx { device, mac, synced_ns },
            ),
            _ => None,
        }
    } else {
        None
    }
}

/// What has been read of a line's fields.
struct FieldsRead {
    mac: Option<String>,
    seq: Option<u32>,
    synced_ns: Option<u128>,
}

impl FieldsRead {
    spec fn says(self, f: Fields) -> bool {
        &&& match self.mac {
            Some(m) => f.mac == Some(m@),
            None => f.mac is None,
        }
        &&& match self.seq {
            Some(n) => f.seq == Some(n as nat),
            None => f.seq is None,
        }
        &&& match self.synced_ns {
            Some(n) => f.synced_ns == Some(n as nat),
            None => f.synced_ns is None,
        }
    }

    /// Takes in one `key=value`.
    fn put(&mut self, key: &[char], value: &[char], captured: bool, Ghost(f): Ghost<Fields>)
        requires
            old(self).says(f),
        ensures
            final(self).says(with_field(f, key@, value@, captured)),
    {
        if text_is(key, "mac") {
            self.mac = Some(string_of(value));
        } else if text_is(key, "seq") && !captured {
            self.seq = match parse_unsigned(value, 10, u32::MAX as u128) {
                Some(n) => Some(n as u32),
                None => None,
            };
        } else if text_is(key, "synced_ns") && !(captured && text_is(value, "NONE")) {
            self.synced_ns = parse_unsigned(value, 10, u128::MAX);
        }
    }
}

/// One bad word spoils the line.
proof fn lemma_bad_word(words: Seq<Seq<char>>, i: int, captured: bool)
    requires
        0 <= i < words.len(),
        crate::text::split_once(words[i], '=') is None,
    ensures
        fields_of(words, captured) is None,
    decreases words.len(),
{
    if i < words.len() - 1 {
        lemma_bad_word(words.drop_last(), i, captured);
    }
}

/// Reads the fields of a text.
fn read_fields(text: &[char], captured: bool) -> (r: Option<FieldsRead>)
    ensures
        match r {
            Some(read) => fields_of(crate::text::words(text@), captured) is Some && read.says(
                fields_of(crate::text::words(text@), captured)->0,
            ),
            None => fields_of(crate::text::words(text@), captured) is None,
        },
{
    let len: usize = text.len();
    let mut read: FieldsRead = FieldsRead { mac: None, seq: None, synced_ns: None };
    let mut at: usize = 0;
    let ghost all = crate::text::words(text@);
    let ghost mut done: int = 0;
    assert(text@.skip(0) =~= text@);
    assert(all.skip(0) =~= all);
    assert(fields_of(all.take(0), captured) == Some(
        Fields { mac: None, seq: None, synced_ns: None },
    ));
    while at < len
        invariant
            len == text@.len(),
            at <= len,
            all == crate::text::words(text@),
            0 <= done <= all.len(),
            all.skip(done) == crate::text::words(text@.skip(at as int)),
            fields_of(all.take(done), captured) is Some,
            read.says(fields_of(all.take(done), captured)->0),
        decreases len - at,
    {
        let ghost rest_text = text@.skip(at as int);
        assert(rest_text[0] == text@[at as int]);
        if white(text[at]) {
            assert(rest_text.skip(1) =~= text@.skip(at + 1));
            at = at + 1;
        } else {
            let rest: &[char] = vstd::slice::slice_subrange(text, at, len);
            assert(rest@ =~= rest_text);
            let n: usize = word_end(rest);
            let word: &[char] = vstd::slice::slice_subrange(rest, 0, n);
            let ghost left = all.skip(done);
            proof {
                assert(word@ =~= rest_text.take(n as int));
                assert(left == seq![word@] + crate::text::words(rest_text.skip(n as int)));
                assert(left[0] == all[done]);
                assert(rest_text.skip(n as int) =~= text@.skip(at + n));
                assert(left.skip(1) =~= crate::text::words(text@.skip(at + n)));
                assert(all.skip(done + 1) =~= left.skip(1));
                assert(all.take(done + 1).drop_last() =~= all.take(done));
                assert(all.take(done + 1).last() == word@);
            }
            let eq: usize = position_of(word, '=');
            if eq == word.len() {
                proof {
                    lemma_bad_word(all, done, captured);
                }
                return None;
            }
            let key: &[char] = vstd::slice::slice_subrange(word, 0, eq);
            let value: &[char] = vstd::slice::slice_subrange(word, eq + 1, n);
            assert(key@ =~= word@.take(eq as int));
            assert(value@ =~= word@.skip(eq + 1));
            read.put(key, value, captured, Ghost(fields_of(all.take(done), captured)->0));
            proof {
                done = done + 1;
            }
            at = at + n;
        }
    }
    proof {
        assert(text@.skip(at as int) =~= Seq::<char>::empty());
        assert(crate::text::words(Seq::<char>::empty()).len() == 0);
        assert(all.take(done) =~= all);
    }
    Some(read)
}

/// Reads a line from board `device`.
pub fn parse_line(device: usize, line: &str) -> (r: Option<Event>)
    ensures
        match r {
            Some(e) => event_of(device as nat, line@) == Some(e@),
            None => event_of(device as nat, line@) is None,
        },
{
    proof {
        reveal_strlit("pulse_tx ");
        reveal_strlit("pulse_rx ");
    }
    let chars: Vec<char> = chars_of(line);
    let text: &[char] = chars.as_slice();
    let sent: bool = starts_with(text, "pulse_tx ");
    if !sent && !starts_with(text, "pulse_rx ") {
        return None;
    }
    let rest: &[char] = vstd::slice::slice_subrange(text, 9, text.len());
    assert(rest@ =~= line@.skip(9));
    match read_fields(rest, !sent) {
        None => None,
        Some(read) => match (read.mac, read.synced_ns) {
            (Some(mac), Some(synced_ns)) => {
                if sent {
                    match read.seq {
                        Some(seq) => Some(Event::Tx { device, mac, seq, synced_ns }),
                        None => None,
                    }
                } else {
                    Some(Event::Rx { device, mac, synced_ns })
                }
            },
            _ => None,
        },
    }
}

} // verus!
