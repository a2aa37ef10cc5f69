use vstd::prelude::*;
use vstd::std_specs::cmp::PartialEqSpec;

verus! {

/// A ticker symbol, such as `AAPL` or `BTC/USD`.
#[derive(Debug, Clone, Eq, Hash)]
pub struct Symbol(pub String);

impl View for Symbol {
    type V = Seq<char>;

    open spec fn view(&self) -> Seq<char> {
        self.0@
    }
}

impl PartialEq for Symbol {
    fn eq(&self, other: &Self) -> (r: bool) {
        self.0 == other.0
    }
}

impl vstd::std_specs::cmp::PartialEqSpecImpl for Symbol {
    open spec fn obeys_eq_spec() -> bool {
        true
    }

    open spec fn eq_spec(&self, other: &Self) -> bool {
        self@ == other@
    }
}

/// A symbol's text is the string it was made from.
pub proof fn symbol_text_is_its_string(text: String)
    ensures
        Symbol(text)@ == text@,
{
}

/// Two symbols are equal exactly when their texts are equal, character for
/// character and in full: `==` on symbols obeys this, and it is an
/// equivalence.
pub proof fn symbol_equality_is_text_equality(a: Symbol, b: Symbol, c: Symbol)
    ensures
        <Symbol as PartialEqSpec>::obeys_eq_spec(),
        a.eq_spec(&b) <==> a@ == b@,
        a.eq_spec(&b) <==> (a@.len() == b@.len() && forall|i: int|
            0 <= i < a@.len() ==> #[trigger] a@[i] == b@[i]),
        a.eq_spec(&a),
        a.eq_spec(&b) ==> b.eq_spec(&a),
        a.eq_spec(&b) && b.eq_spec(&c) ==> a.eq_spec(&c),
{
    if a@.len() == b@.len() && forall|i: int| 0 <= i < a@.len() ==> #[trigger] a@[i] == b@[i] {
        assert(a@ =~= b@);
    }
}

/// Distinct intervals ask for distinct timeframes, so no interval is served
/// another's bars.
pub proof fn timeframes_are_distinct(x: Interval, y: Interval)
    ensures
        spec_timeframe(x) == spec_timeframe(y) <==> x == y,
{
    reveal_strlit("1Day");
    reveal_strlit("1Hour");
    reveal_strlit("5Min");
    reveal_strlit("1Min");
    reveal_strlit("Bad");
    if x != y {
        match x {
            Interval::Day => assert(spec_timeframe(x)[1] == 'D'),
            Interval::Hour => assert(spec_timeframe(x)[1] == 'H'),
            Interval::FiveMinute => assert(spec_timeframe(x)[0] == '5'),
            Interval::Minute => assert(spec_timeframe(x)[1] == 'M' && spec_timeframe(x)[0] == '1'),
            Interval::Second => assert(spec_timeframe(x)[0] == 'B'),
        }
        match y {
            Interval::Day => assert(spec_timeframe(y)[1] == 'D'),
            Interval::Hour => assert(spec_timeframe(y)[1] == 'H'),
            Interval::FiveMinute => assert(spec_timeframe(y)[0] == '5'),
            Interval::Minute => assert(spec_timeframe(y)[1] == 'M' && spec_timeframe(y)[0] == '1'),
            Interval::Second => assert(spec_timeframe(y)[0] == 'B'),
        }
    }
}

/// Each interval's timeframe: a day, an hour, five minutes, a minute; the
/// endpoint has no one-second bars.
pub proof fn timeframe_of_each_interval()
    ensures
        spec_timeframe(Interval::Day) == "1Day"@,
        spec_timeframe(Interval::Hour) == "1Hour"@,
        spec_timeframe(Interval::FiveMinute) == "5Min"@,
        spec_timeframe(Interval::Minute) == "1Min"@,
        spec_timeframe(Interval::Second) == "Bad"@,
{
}

impl Symbol {
    /// A fresh symbol with the same text.
    pub fn duplicate(&self) -> (r: Symbol)
        ensures
            r@ == self@,
    {
        Symbol(self.0.clone())
    }
}

/// The kind of asset a symbol names.
#[derive(Debug, Clone, Copy, PartialEq, Eq, Structural)]
pub enum AssetClass {
    Equity,
    Crypto,
}

/// The direction of an order or a fill.
#[derive(Debug, Clone, Copy, PartialEq, Eq, Structural)]
pub enum Side {
    Buy,
    Sell,
}

/// The bar width of a history query.
#[derive(Debug, Clone, Copy, PartialEq, Eq, Structural)]
pub enum Interval {
    Day,
    Hour,
    FiveMinute,
    Minute,
    Second,
}

/// The `timeframe` parameter of the bars endpoint for each interval.
/// The endpoint has no one-second bars: `Second` gives the word that the
/// endpoint refuses.
pub open spec fn spec_timeframe(interval: Interval) -> Seq<char> {
    match interval {
        Interval::Day => "1Day"@,
        Interval::Hour => "1Hour"@,
        Interval::FiveMinute => "5Min"@,
        Interval::Minute => "1Min"@,
        Interval::Second => "Bad"@,
    }
}

impl Interval {
    /// The `timeframe` query parameter for this interval.
    pub fn timeframe(&self) -> (s: &'static str)
        ensures
            s@ == spec_timeframe(*self),
    {
        match self {
            Interval::Day => "1Day",
            Interval::Hour => "1Hour",
            Interval::FiveMinute => "5Min",
            Interval::Minute => "1Min",
            Interval::Second => "Bad",
        }
    }
}

} // verus!
