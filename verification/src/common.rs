//! Values shared by all contracts: addresses as the chain hands them over,
//! the standard errors, and the response a contract call produces.
use vstd::prelude::*;
use vstd::string::*;

verus! {

/// Arithmetic operation that overflowed.
#[derive(Clone, Copy, Debug, PartialEq, Eq, Structural)]
pub enum OverflowOp {
    Add,
    Sub,
}

/// The chain's standard errors that the contracts let through.
#[derive(Debug)]
pub enum StdFailure {
    /// "Cannot {op} with given operands".
    Overflow(OverflowOp),
    /// "{kind} not found".
    NotFound(String),
    /// Any other failure, by its message (a rejected address, a failed query).
    Generic(String),
}

/// An address argument together with the chain's verdict on it: `rejection`
/// is `None` when the chain accepts `text` as an address, else the error it
/// raised. An accepted address is the text itself.
#[derive(Debug)]
pub struct AddrInput {
    pub text: String,
    pub rejection: Option<StdFailure>,
}

/// Who calls, on which contract, at what time.
#[derive(Debug)]
pub struct Ctx {
    /// The caller as the chain reports it, with the chain's verdict on it.
    pub sender: AddrInput,
    /// This token's own address.
    pub contract: String,
    /// Block time, in seconds.
    pub time: u64,
}

/// A standard error with its texts taken by their contents.
pub enum StdFailureView {
    Overflow(OverflowOp),
    NotFound(Seq<char>),
    Generic(Seq<char>),
}

impl View for StdFailure {
    type V = StdFailureView;

    open spec fn view(&self) -> StdFailureView {
        match self {
            StdFailure::Overflow(op) => StdFailureView::Overflow(*op),
            StdFailure::NotFound(k) => StdFailureView::NotFound(k@),
            StdFailure::Generic(m) => StdFailureView::Generic(m@),
        }
    }
}

impl StdFailure {
    pub fn duplicate(&self) -> (r: Self)
        ensures
            r == *self,
    {
        match self {
            StdFailure::Overflow(op) => StdFailure::Overflow(*op),
            StdFailure::NotFound(k) => StdFailure::NotFound(k.clone()),
            StdFailure::Generic(m) => StdFailure::Generic(m.clone()),
        }
    }
}

impl AddrInput {
    pub open spec fn valid(&self) -> bool {
        self.rejection is None
    }

    /// The validated address, or the chain's rejection.
    pub fn check(&self) -> (r: Result<String, StdFailure>)
        ensures
            match r {
                Ok(a) => self.valid() && a == self.text,
                Err(e) => !self.valid() && e == self.rejection->0,
            },
    {
        match &self.rejection {
            None => Ok(self.text.clone()),
            Some(e) => Err(e.duplicate()),
        }
    }
}

/// A key/value pair attached to a response or an event.
#[derive(Debug)]
pub struct Attribute {
    pub key: String,
    pub value: String,
}

impl View for Attribute {
    type V = (Seq<char>, Seq<char>);

    open spec fn view(&self) -> (Seq<char>, Seq<char>) {
        (self.key@, self.value@)
    }
}

/// A typed event with its attributes.
#[derive(Debug)]
pub struct Event {
    pub ty: String,
    pub attributes: Vec<Attribute>,
}

impl View for Event {
    type V = (Seq<char>, Seq<(Seq<char>, Seq<char>)>);

    open spec fn view(&self) -> (Seq<char>, Seq<(Seq<char>, Seq<char>)>) {
        (self.ty@, attrs_view(self.attributes@))
    }
}

pub open spec fn attrs_view(a: Seq<Attribute>) -> Seq<(Seq<char>, Seq<char>)> {
    a.map_values(|x: Attribute| x@)
}

pub open spec fn events_view(a: Seq<Event>) -> Seq<(Seq<char>, Seq<(Seq<char>, Seq<char>)>)> {
    a.map_values(|x: Event| x@)
}

/// What a successful contract call hands back: messages to other contracts
/// (of the contract's own kind `M`), attributes and events.
#[derive(Debug)]
pub struct Response<M> {
    pub messages: Vec<M>,
    pub attributes: Vec<Attribute>,
    pub events: Vec<Event>,
}

impl<M> Response<M> {
    pub open spec fn attrs(&self) -> Seq<(Seq<char>, Seq<char>)> {
        attrs_view(self.attributes@)
    }

    pub open spec fn evts(&self) -> Seq<(Seq<char>, Seq<(Seq<char>, Seq<char>)>)> {
        events_view(self.events@)
    }

    pub fn new() -> (r: Self)
        ensures
            r.messages@ == Seq::<M>::empty(),
            r.attrs() == Seq::<(Seq<char>, Seq<char>)>::empty(),
            r.evts() == Seq::<(Seq<char>, Seq<(Seq<char>, Seq<char>)>)>::empty(),
    {
        let r = Response { messages: Vec::new(), attributes: Vec::new(), events: Vec::new() };
        assert(r.attrs() =~= Seq::<(Seq<char>, Seq<char>)>::empty());
        assert(r.evts() =~= Seq::<(Seq<char>, Seq<(Seq<char>, Seq<char>)>)>::empty());
        r
    }

    /// Appends the attribute `key` = `value`.
    pub fn attr(&mut self, key: &str, value: String)
        ensures
            final(self).messages@ == old(self).messages@,
            final(self).evts() == old(self).evts(),
            final(self).attrs() == old(self).attrs().push((key@, value@)),
    {
        let ghost old_attrs = self.attributes@;
        self.attributes.push(Attribute { key: String::from_str(key), value });
        assert(attrs_view(self.attributes@) =~= attrs_view(old_attrs).push((key@, value@)));
    }

    /// Appends a message.
    pub fn msg(&mut self, m: M)
        ensures
            final(self).messages@ == old(self).messages@.push(m),
            final(self).evts() == old(self).evts(),
            final(self).attrs() == old(self).attrs(),
    {
        self.messages.push(m);
    }

    /// Appends an event.
    pub fn event(&mut self, e: Event)
        ensures
            final(self).messages@ == old(self).messages@,
            final(self).evts() == old(self).evts().push(e@),
            final(self).attrs() == old(self).attrs(),
    {
        let ghost old_events = self.events@;
        self.events.push(e);
        assert(events_view(self.events@) =~= events_view(old_events).push(e@));
    }
}

impl Event {
    pub fn new(ty: &str) -> (e: Self)
        ensures
            e@ == (ty@, Seq::<(Seq<char>, Seq<char>)>::empty()),
    {
        let e = Event { ty: String::from_str(ty), attributes: Vec::new() };
        assert(attrs_view(e.attributes@) =~= Seq::<(Seq<char>, Seq<char>)>::empty());
        e
    }

    /// Appends the attribute `key` = `value`.
    pub fn attr(&mut self, key: &str, value: String)
        ensures
            final(self)@ == (old(self)@.0, old(self)@.1.push((key@, value@))),
    {
        let ghost old_attrs = self.attributes@;
        self.attributes.push(Attribute { key: String::from_str(key), value });
        assert(attrs_view(self.attributes@) =~= attrs_view(old_attrs).push((key@, value@)));
    }
}

/// The decimal digit character for `d` (0..=9).
pub open spec fn digit_char(d: nat) -> char {
    if d == 0 {
        '0'
    } else if d == 1 {
        '1'
    } else if d == 2 {
        '2'
    } else if d == 3 {
        '3'
    } else if d == 4 {
        '4'
    } else if d == 5 {
        '5'
    } else if d == 6 {
        '6'
    } else if d == 7 {
        '7'
    } else if d == 8 {
        '8'
    } else {
        '9'
    }
}

/// The decimal notation of `n`, without leading zeros.
pub open spec fn decimal(n: nat) -> Seq<char>
    decreases n,
{
    if n < 10 {
        seq![digit_char(n)]
    } else {
        decimal(n / 10).push(digit_char(n % 10))
    }
}

/// Decimal notation of a number (std's `Display` for integers).
#[verifier::external_body]
pub(crate) fn decimal_string(n: u128) -> (s: String)
    ensures
        s@ == decimal(n as nat),
{
    n.to_string()
}

/// An owned copy of a string literal.
pub fn text(s: &str) -> (r: String)
    ensures
        r@ == s@,
{
    String::from_str(s)
}

/// `a` followed by `b`.
pub fn join(a: &str, b: &str) -> (r: String)
    ensures
        r@ == a@ + b@,
{
    let mut r = String::from_str(a);
    r.append(b);
    r
}

/// The `Debug` text of an optional amount (`None`, or `Some(Uint128(n))`).
pub open spec fn opt_amount_debug(v: Option<u128>) -> Seq<char> {
    match v {
        None => "None"@,
        Some(n) => "Some(Uint128("@ + decimal(n as nat) + "))"@,
    }
}

pub fn opt_amount_debug_string(v: Option<u128>) -> (r: String)
    ensures
        r@ == opt_amount_debug(v),
{
    match v {
        None => text("None"),
        Some(n) => {
            let d = decimal_string(n);
            let mut r = text("Some(Uint128(");
            r.append(d.as_str());
            r.append("))");
            r
        },
    }
}

/// The text an optional string shows, or `default` when it is absent.
pub fn text_or(v: &Option<String>, default: &str) -> (r: String)
    ensures
        r@ == match v {
            Some(s) => s@,
            None => default@,
        },
{
    match v {
        Some(s) => s.clone(),
        None => text(default),
    }
}

} // verus!
