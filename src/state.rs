use vstd::prelude::*;
use vstd::string::*;
use crate::json::{array_text, decimal, decimal_string, json_u32, parse_u32, quote, quoted, array_of_strings};

verus! {

/// What a state holds: the counter and the log, oldest entry first.
pub struct StateModel {
    pub counter: nat,
    pub messages: Seq<Seq<char>>,
}

/// The process's durable state: a counter and an append-only message log.
pub struct AppState {
    counter: u32,
    messages: Vec<String>,
}

/// The texts of a vector of strings.
pub open spec fn texts(v: Seq<String>) -> Seq<Seq<char>> {
    v.map_values(|s: String| s@)
}

/// The log entry that `initialize` appends.
pub open spec fn init_entry() -> Seq<char> {
    "App initialized!"@
}

/// The log entry for an increment by `amount`.
pub open spec fn increment_entry(amount: nat) -> Seq<char> {
    "Counter incremented by "@ + decimal(amount)
}

/// The log entry for a message from a peer.
pub open spec fn remote_entry(message: Seq<char>) -> Seq<char> {
    "Remote message: "@ + message
}

/// The reply to a peer's message.
pub open spec fn ack_text() -> Seq<char> {
    "Message received"@
}

/// The amount an increment adds: the parsed number, or one where the body
/// is not a number.
pub open spec fn amount_of(parsed: Option<u32>) -> nat {
    match parsed {
        Some(n) => n as nat,
        None => 1,
    }
}

/// The counter after adding `amount`, wrapping at 2^32.
pub open spec fn wrapped_sum(counter: nat, amount: nat) -> nat {
    (counter + amount) % 0x1_0000_0000
}

/// The state after one increment whose body parsed as `parsed`.
pub open spec fn increment_model(s: StateModel, parsed: Option<u32>) -> StateModel {
    StateModel {
        counter: wrapped_sum(s.counter, amount_of(parsed)),
        messages: s.messages.push(increment_entry(amount_of(parsed))),
    }
}

/// The state right after `initialize` on a fresh state.
pub open spec fn initialized_model() -> StateModel {
    StateModel { counter: 0, messages: seq![init_entry()] }
}

/// The state after the increments of `parsed`, in order, starting from `s`.
pub open spec fn after_increments(s: StateModel, parsed: Seq<Option<u32>>) -> StateModel
    decreases parsed.len(),
{
    if parsed.len() == 0 {
        s
    } else {
        increment_model(after_increments(s, parsed.drop_last()), parsed.last())
    }
}

/// The sum of the amounts of a run of increments.
pub open spec fn total(parsed: Seq<Option<u32>>) -> nat
    decreases parsed.len(),
{
    if parsed.len() == 0 {
        0
    } else {
        total(parsed.drop_last()) + amount_of(parsed.last())
    }
}

/// The status object: counter, message count and node, keys in order.
pub open spec fn status_text(counter: nat, count: nat, node: Seq<char>) -> Seq<char> {
    "{\"counter\":"@ + decimal(counter) + ",\"message_count\":"@ + decimal(count)
        + ",\"node\":"@ + quoted(node) + "}"@
}

impl View for AppState {
    type V = StateModel;

    closed spec fn view(&self) -> StateModel {
        StateModel { counter: self.counter as nat, messages: texts(self.messages@) }
    }
}

impl Default for AppState {
    /// A state with the counter at zero and an empty log.
    fn default() -> (r: AppState)
        ensures
            r@.counter == 0,
            r@.messages == Seq::<Seq<char>>::empty(),
    {
        AppState::new()
    }
}

impl AppState {
    /// A state with the counter at zero and an empty log.
    pub fn new() -> (r: AppState)
        ensures
            r@.counter == 0,
            r@.messages == Seq::<Seq<char>>::empty(),
    {
        let r = AppState { counter: 0, messages: Vec::new() };
        assert(texts(r.messages@) =~= Seq::<Seq<char>>::empty());
        r
    }

    /// The state that a saved snapshot holds.
    pub fn restore(counter: u32, messages: Vec<String>) -> (r: AppState)
        ensures
            r@.counter == counter as nat,
            r@.messages == texts(messages@),
    {
        AppState { counter, messages }
    }

    /// The counter.
    pub fn counter(&self) -> (r: u32)
        ensures
            r as nat == self@.counter,
    {
        self.counter
    }

    /// The log, oldest entry first.
    pub fn messages(&self) -> (r: &Vec<String>)
        ensures
            texts(r@) == self@.messages,
    {
        &self.messages
    }

    fn push_entry(&mut self, entry: String)
        requires
            old(self).messages.len() < usize::MAX,
        ensures
            final(self)@.counter == old(self)@.counter,
            final(self)@.messages == old(self)@.messages.push(entry@),
    {
        self.messages.push(entry);
        assert(texts(self.messages@) =~= texts(old(self).messages@).push(entry@));
    }

    /// Sets the counter to zero and logs that the process started.
    pub fn initialize(&mut self)
        requires
            old(self)@.messages.len() < usize::MAX,
        ensures
            final(self)@.counter == 0,
            final(self)@.messages == old(self)@.messages.push(init_entry()),
    {
        self.counter = 0;
        proof { reveal_strlit("App initialized!"); }
        self.push_entry(String::from_str("App initialized!"));
    }

    /// The status of the process on `node` as a JSON object; the body is
    /// ignored.
    pub fn get_status(&self, _request_body: String, node: &str) -> (r: String)
        ensures
            r@ == status_text(self@.counter, self@.messages.len(), node@),
    {
        proof {
            reveal_strlit("{\"counter\":");
            reveal_strlit(",\"message_count\":");
            reveal_strlit(",\"node\":");
            reveal_strlit("}");
        }
        let mut r = String::from_str("{\"counter\":");
        let c = decimal_string(self.counter as u64);
        r.append(c.as_str());
        r.append(",\"message_count\":");
        let n = decimal_string(self.messages.len() as u64);
        r.append(n.as_str());
        r.append(",\"node\":");
        let q = quote(node);
        r.append(q.as_str());
        r.append("}");
        r
    }

    /// Adds the amount that `parsed` gives (one where it is `None`) to the
    /// counter, wrapping at 2^32, logs the amount, and returns the new counter.
    pub fn apply_increment(&mut self, parsed: Option<u32>) -> (r: Result<u32, String>)
        requires
            old(self)@.messages.len() < usize::MAX,
        ensures
            final(self)@ == increment_model(old(self)@, parsed),
            r == Ok::<u32, String>(final(self)@.counter as u32),
    {
        let amount: u32 = match parsed {
            Some(n) => n,
            None => 1,
        };
        self.counter = if amount <= u32::MAX - self.counter {
            self.counter + amount
        } else {
            amount - (u32::MAX - self.counter) - 1
        };
        proof { reveal_strlit("Counter incremented by "); }
        let mut entry = String::from_str("Counter incremented by ");
        let digits = decimal_string(amount as u64);
        entry.append(digits.as_str());
        self.push_entry(entry);
        Ok(self.counter)
    }

    /// Increments the counter by the number that the body holds as JSON, or
    /// by one where it holds none, and returns the new counter.
    pub fn increment_counter(&mut self, request_body: String) -> (r: Result<u32, String>)
        requires
            old(self)@.messages.len() < usize::MAX,
        ensures
            final(self)@ == increment_model(old(self)@, json_u32(request_body@)),
            r == Ok::<u32, String>(final(self)@.counter as u32),
    {
        let parsed = parse_u32(request_body.as_str());
        self.apply_increment(parsed)
    }

    /// The log as a JSON array of strings; the body is ignored.
    pub fn get_messages(&self, _request_body: String) -> (r: String)
        ensures
            r@ == array_text(self@.messages),
    {
        array_of_strings(&self.messages)
    }

    /// Logs a message from a peer and acknowledges it.
    pub fn handle_remote_message(&mut self, message: String) -> (r: Result<String, String>)
        requires
            old(self)@.messages.len() < usize::MAX,
        ensures
            final(self)@.counter == old(self)@.counter,
            final(self)@.messages == old(self)@.messages.push(remote_entry(message@)),
            r matches Ok(s) && s@ == ack_text(),
    {
        proof {
            reveal_strlit("Remote message: ");
            reveal_strlit("Message received");
        }
        let mut entry = String::from_str("Remote message: ");
        entry.append(message.as_str());
        self.push_entry(entry);
        Ok(String::from_str("Message received"))
    }
}

/// Initializing a state whose log is empty gives the counter zero and the
/// one start-up entry.
pub proof fn law_initialize_empty(s: StateModel)
    requires
        s.messages.len() == 0,
    ensures
        (StateModel { counter: 0, messages: s.messages.push(init_entry()) })
            == initialized_model(),
{
    assert(s.messages.push(init_entry()) =~= seq![init_entry()]);
}

/// An increment by a number `n` adds exactly `n` to the counter, as long as
/// the sum fits in a `u32`, and appends exactly one log entry.
pub proof fn law_increment_adds_amount(s: StateModel, n: u32)
    requires
        s.counter + n <= u32::MAX,
    ensures
        increment_model(s, Some(n)).counter == s.counter + n,
        increment_model(s, Some(n)).messages.len() == s.messages.len() + 1,
        increment_model(s, Some(n)).messages.drop_last() == s.messages,
{
    assert(increment_model(s, Some(n)).messages.drop_last() =~= s.messages);
}

/// An increment whose body is not a number adds exactly one, as long as the
/// counter is below `u32::MAX`.
pub proof fn law_increment_defaults_to_one(s: StateModel)
    requires
        s.counter < u32::MAX,
    ensures
        increment_model(s, None).counter == s.counter + 1,
        increment_model(s, None).messages.len() == s.messages.len() + 1,
{
}

/// After initialization and `k` increments whose amounts total `t` (with `t`
/// within `u32`), the counter is `t`, the log holds `k + 1` entries, and the
/// status object reports exactly that.
pub proof fn law_status_after_increments(parsed: Seq<Option<u32>>, node: Seq<char>)
    requires
        total(parsed) <= u32::MAX,
    ensures
        after_increments(initialized_model(), parsed).counter == total(parsed),
        after_increments(initialized_model(), parsed).messages.len() == parsed.len() + 1,
        status_text(
            after_increments(initialized_model(), parsed).counter,
            after_increments(initialized_model(), parsed).messages.len(),
            node,
        ) == status_text(total(parsed), (parsed.len() + 1) as nat, node),
    decreases parsed.len(),
{
    if parsed.len() > 0 {
        law_status_after_increments(parsed.drop_last(), node);
    }
}

} // verus!
