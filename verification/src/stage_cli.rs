//! `ksx stage` — the staged setup's verbs as request lines for the daemon.

use vstd::prelude::*;

use crate::session::{json_string, json_quote};
use crate::text::{decimal, push_decimal};

verus! {

/// The verbs `ksx stage` offers.
#[derive(Clone, Debug, PartialEq, Eq)]
pub enum Verb {
    /// Read the staged setup.
    View,
    /// Adopt the saved configuration (or one games.toml profile) into an
    /// empty stage.
    Adopt { game: Option<String> },
    /// Whole-order reorder: the current slot numbers in the desired new
    /// sequence.
    Reorder { numbers: Vec<u8> },
    /// One staged slot's simultaneous-opposite-direction policy.
    Socd { slot: u8, socd: String },
}

/// `[3,1,2]`: numbers as a JSON array.
pub open spec fn json_numbers(v: Seq<u8>) -> Seq<char> {
    "["@ + json_number_list(v) + "]"@
}

pub open spec fn json_number_list(v: Seq<u8>) -> Seq<char>
    decreases v.len(),
{
    if v.len() <= 1 {
        if v.len() == 0 {
            seq![]
        } else {
            decimal(v[0] as nat)
        }
    } else {
        json_number_list(v.drop_last()) + ","@ + decimal(v.last() as nat)
    }
}

pub open spec fn request_text(verb: Verb) -> Seq<char> {
    match verb {
        Verb::View => "{\"verb\":\"stage\"}"@,
        Verb::Adopt { game } => match game {
            None => "{\"verb\":\"stage-adopt\"}"@,
            Some(g) => "{\"verb\":\"stage-adopt\",\"profile\":"@ + json_string(g@) + "}"@,
        },
        Verb::Reorder { numbers } => "{\"verb\":\"stage-edit\",\"edit\":\"reorder-slots\",\"numbers\":"@
            + json_numbers(numbers@) + "}"@,
        Verb::Socd { slot, socd } => "{\"verb\":\"stage-edit\",\"edit\":\"set-socd\",\"number\":"@
            + decimal(slot as nat) + ",\"socd\":"@ + json_string(socd@) + "}"@,
    }
}

fn push_numbers(s: &mut String, v: &Vec<u8>)
    ensures
        final(s)@ == old(s)@ + json_numbers(v@),
{
    s.append("[");
    let mut i: usize = 0;
    while i < v.len()
        invariant
            i <= v@.len(),
            s@ == old(s)@ + "["@ + json_number_list(v@.take(i as int)),
        decreases v.len() - i,
    {
        assert(v@.take(i + 1).drop_last() =~= v@.take(i as int));
        if i > 0 {
            s.append(",");
        }
        push_decimal(s, v[i] as u64);
        proof {
            if i == 0 {
                assert(v@.take(1).len() == 1);
            }
            assert(s@ =~= old(s)@ + "["@ + json_number_list(v@.take(i + 1)));
        }
        i = i + 1;
    }
    s.append("]");
    assert(v@.take(v@.len() as int) =~= v@);
    assert(s@ =~= old(s)@ + json_numbers(v@));
}

impl Verb {
    /// The request as it goes on the wire.
    pub fn request(&self) -> (line: String)
        ensures
            line@ == request_text(*self),
    {
        match self {
            Verb::View => "{\"verb\":\"stage\"}".to_owned(),
            Verb::Adopt { game } => match game {
                None => "{\"verb\":\"stage-adopt\"}".to_owned(),
                Some(g) => {
                    let mut line = "{\"verb\":\"stage-adopt\",\"profile\":".to_owned();
                    let quoted = json_quote(g.as_str());
                    line.append(quoted.as_str());
                    line.append("}");
                    line
                },
            },
            Verb::Reorder { numbers } => {
                let mut line = "{\"verb\":\"stage-edit\",\"edit\":\"reorder-slots\",\"numbers\":".to_owned();
                push_numbers(&mut line, numbers);
                line.append("}");
                line
            },
            Verb::Socd { slot, socd } => {
                let mut line = "{\"verb\":\"stage-edit\",\"edit\":\"set-socd\",\"number\":".to_owned();
                push_decimal(&mut line, *slot as u64);
                line.append(",\"socd\":");
                let quoted = json_quote(socd.as_str());
                line.append(quoted.as_str());
                line.append("}");
                line
            },
        }
    }
}

} // verus!
