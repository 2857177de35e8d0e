use vstd::prelude::*;

use crate::frames::echo;
use crate::frames::echo_actions;
use crate::frames::Action;
use crate::frames::Incoming;
use crate::text::decimal;
use crate::text::decimal_text;
use crate::text::law_decimal_reads_back;
use crate::text::read_decimal;

verus! {

/// A websocket connection that counts, over every connection that shares
/// `counter`, the texts it receives.
pub struct AnotherWsConn<C> {
    id: i32,
    counter: C,
}

/// The greeting that a counting connection sends when it starts.
pub open spec fn started_text(id: i32) -> Seq<char> {
    "AnotherWsConn started: "@ + decimal(id as int)
}

/// The answer of a counting connection to a text, once the shared count has
/// become `count`.
pub open spec fn counted_text(count: i32, text: Seq<char>) -> Seq<char> {
    "counter: "@ + decimal(count as int) + " - msg: "@ + text
}

impl<C> AnotherWsConn<C> {
    /// The number that the connection shows.
    pub closed spec fn id_spec(&self) -> i32 {
        self.id
    }

    /// The shared count, as the connection holds it.
    pub closed spec fn counter_spec(&self) -> C {
        self.counter
    }

    pub fn new(counter: C, id: i32) -> (conn: Self)
        ensures
            conn.id_spec() == id,
            conn.counter_spec() == counter,
    {
        AnotherWsConn { id, counter }
    }

    pub fn id(&self) -> (r: i32)
        ensures
            r == self.id_spec(),
    {
        self.id
    }

    pub fn counter(&self) -> (c: &C)
        ensures
            *c == self.counter_spec(),
    {
        &self.counter
    }

    /// The text that the connection sends when it starts.
    pub fn started(&self) -> (s: String)
        ensures
            s@ == started_text(self.id_spec()),
    {
        let mut s = String::from_str("AnotherWsConn started: ");
        let n = decimal_text(self.id);
        s.append(n.as_str());
        s
    }

    /// Answers a frame, given the shared count. A text adds one to the count
    /// and is answered with the new count and the text; any other frame leaves
    /// the count alone and is echoed as a plain echoing connection does.
    pub fn handle(&self, msg: Incoming, count: &mut i32) -> (actions: Vec<Action>)
        requires
            msg is Text ==> *old(count) < i32::MAX,
        ensures
            match msg {
                Incoming::Text(t) => {
                    &&& *final(count) == *old(count) + 1
                    &&& actions@.len() == 1
                    &&& actions@[0] matches Action::Text(s) && s@ == counted_text(
                        *final(count),
                        t@,
                    )
                },
                _ => *final(count) == *old(count) && actions@ == echo_actions(msg),
            },
    {
        match msg {
            Incoming::Text(t) => {
                *count = *count + 1;
                let mut s = String::from_str("counter: ");
                let n = decimal_text(*count);
                s.append(n.as_str());
                s.append(" - msg: ");
                s.append(t.as_str());
                let mut actions: Vec<Action> = Vec::new();
                actions.push(Action::Text(s));
                actions
            },
            other => echo(other),
        }
    }
}

/// For every count and text, the answer is `counter: `, then the count in
/// decimal, which reads back as the count, then ` - msg: ` and the text.
pub proof fn law_counted_text_reports_the_count(count: i32, text: Seq<char>)
    ensures
        counted_text(count, text).take(9) == "counter: "@,
        read_decimal(counted_text(count, text).subrange(9, 9 + decimal(count as int).len() as int))
            == count,
        counted_text(count, text).skip(9 + decimal(count as int).len() as int) == " - msg: "@ + text,
{
    reveal_strlit("counter: ");
    law_decimal_reads_back(count as int);
    let t = counted_text(count, text);
    let n = decimal(count as int).len() as int;
    assert(t.take(9) =~= "counter: "@);
    assert(t.subrange(9, 9 + n) =~= decimal(count as int));
    assert(t.skip(9 + n) =~= " - msg: "@ + text);
}

/// For every id, the greeting is `AnotherWsConn started: ` followed by the id
/// in decimal, which reads back as the id.
pub proof fn law_started_text_reports_the_id(id: i32)
    ensures
        started_text(id).take(23) == "AnotherWsConn started: "@,
        read_decimal(started_text(id).skip(23)) == id,
{
    reveal_strlit("AnotherWsConn started: ");
    law_decimal_reads_back(id as int);
    assert(started_text(id).take(23) =~= "AnotherWsConn started: "@);
    assert(started_text(id).skip(23) =~= decimal(id as int));
}

} // verus!
