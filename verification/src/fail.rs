//! The fallible-result model: `Attempt<T>` is success or a `Fail`, an
//! error record owning a non-empty ordered list of attributed locations
//! and a message, rendered location by location.
use vstd::prelude::*;
use vstd::string::*;
use crate::locate::{spec_label, ErrDetails, Locator};
use crate::text::dec_rep;

verus! {

/// A result that is either a success value or a `Fail` record.
pub type Attempt<T> = Result<T, Fail>;

/// An error record: the ordered locations it was attributed to (never
/// empty; the first is the site of original construction) and a message.
#[derive(Debug)]
pub struct Fail {
    places: Vec<ErrDetails>,
    msg: String,
}

/// One rendered location line: index, file, line, symbol path.
pub open spec fn place_line_spec(p: ErrDetails, i: int) -> Seq<char> {
    "\n\t"@ + dec_rep(i as nat) + " - "@ + p.file@ + ", "@ + dec_rep(p.line as nat) + ", "@
        + p.function@ + "\n"@
}

/// The first `k` location lines, rendered in order.
pub open spec fn render_upto(places: Seq<ErrDetails>, k: int) -> Seq<char>
    decreases k,
{
    if k <= 0 {
        Seq::empty()
    } else {
        render_upto(places, k - 1) + place_line_spec(places[k - 1], k - 1)
    }
}

/// The full rendering: every location line, then the message line.
pub open spec fn show_spec(places: Seq<ErrDetails>, msg: Seq<char>) -> Seq<char> {
    render_upto(places, places.len() as int) + "\n\tError: "@ + msg
}

impl Fail {
    /// The attributed locations, in order.
    pub closed spec fn spec_places(&self) -> Seq<ErrDetails> {
        self.places@
    }

    /// The message.
    pub closed spec fn spec_msg(&self) -> Seq<char> {
        self.msg@
    }

    /// A well-formed record holds at least one location.
    pub open spec fn wf(&self) -> bool {
        self.spec_places().len() >= 1
    }

    /// A record attributed to one place, with the given message.
    pub fn new(place: ErrDetails, msg: String) -> (r: Fail)
        ensures
            r.wf(),
            r.spec_places() == seq![place],
            r.spec_msg() == msg@,
    {
        let mut places: Vec<ErrDetails> = Vec::new();
        places.push(place);
        proof {
            assert(places@ =~= seq![place]);
        }
        Fail { places, msg }
    }

    /// A record carrying the rendering of an underlying low-level error,
    /// attributed to one place.
    pub fn from_debug(place: ErrDetails, rendered: String) -> (r: Fail)
        ensures
            r.wf(),
            r.spec_places() == seq![place],
            r.spec_msg() == rendered@,
    {
        Fail::new(place, rendered)
    }

    /// Renders every location, each as index, file, line and symbol path,
    /// followed by the message. Only well-formed records - at least one
    /// location - can be rendered.
    pub fn show(&self) -> (r: String)
        requires
            self.wf(),
        ensures
            r@ == show_spec(self.spec_places(), self.spec_msg()),
    {
        let mut out = String::new();
        let mut i: usize = 0;
        let len: usize = self.places.len();
        while i < len
            invariant
                i <= len,
                len == self.places@.len(),
                out@ == render_upto(self.places@, i as int),
            decreases len - i,
        {
            let p = &self.places[i];
            out.append("\n\t");
            let idx = crate::text::u64_to_string(i as u64);
            out.append(idx.as_str());
            out.append(" - ");
            out.append(p.file.as_str());
            out.append(", ");
            let ln = crate::text::u64_to_string(p.line as u64);
            out.append(ln.as_str());
            out.append(", ");
            out.append(p.function.as_str());
            out.append("\n");
            i = i + 1;
            proof {
                assert(out@ =~= render_upto(self.places@, i as int));
            }
        }
        out.append("\n\tError: ");
        out.append(self.msg.as_str());
        proof {
            assert(out@ =~= show_spec(self.spec_places(), self.spec_msg()));
        }
        out
    }

    /// The message, for callers that report it.
    pub fn message(&self) -> (r: &str)
        ensures
            r@ == self.spec_msg(),
    {
        self.msg.as_str()
    }

    /// How many locations the record carries.
    pub fn places_len(&self) -> (r: usize)
        ensures
            r == self.spec_places().len(),
    {
        self.places.len()
    }

    /// The location at position `i`.
    pub fn place_at(&self, i: usize) -> (r: &ErrDetails)
        requires
            i < self.spec_places().len(),
        ensures
            *r == self.spec_places()[i as int],
    {
        &self.places[i]
    }
}

/// Law: a failure built by `fail` carries exactly one location, so every
/// record this module constructs is renderable.
pub fn fail<T>(place: ErrDetails, msg: String) -> (r: Attempt<T>)
    ensures
        r is Err,
        r->Err_0.wf(),
        r->Err_0.spec_places() == seq![place],
        r->Err_0.spec_places().len() == 1,
        r->Err_0.spec_msg() == msg@,
{
    Err(Fail::new(place, msg))
}

/// A failure attributed to the call site `(file, line)`, resolved through
/// the locator as `fail` resolves its caller's position.
pub fn fail_at<T>(locator: &mut Locator, file: &str, line: u32, msg: String) -> (r: Attempt<T>)
    requires
        old(locator).wf(),
    ensures
        final(locator).wf(),
        final(locator).sources_view() == old(locator).sources_view(),
        r is Err,
        r->Err_0.wf(),
        r->Err_0.spec_places().len() == 1,
        r->Err_0.spec_places()[0].file@ == file@,
        r->Err_0.spec_places()[0].line == line,
        r->Err_0.spec_places()[0].function@ == spec_label(
            old(locator).sources_view(),
            file@,
            line as int,
        ),
        r->Err_0.spec_msg() == msg@,
{
    let place = locator.locate(file, line);
    fail(place, msg)
}

/// Law: the rendering of a well-formed record begins with its first
/// location's line, so at least one location is always rendered.
pub proof fn lemma_show_renders_first_place(places: Seq<ErrDetails>, msg: Seq<char>)
    requires
        places.len() >= 1,
    ensures
        show_spec(places, msg).take(place_line_spec(places[0], 0).len() as int) == place_line_spec(
            places[0],
            0,
        ),
{
    lemma_render_prefix(places, places.len() as int);
    let line0 = place_line_spec(places[0], 0);
    assert(show_spec(places, msg).take(line0.len() as int) =~= line0);
}

/// The rendering of `k >= 1` locations begins with the first one's line.
proof fn lemma_render_prefix(places: Seq<ErrDetails>, k: int)
    requires
        1 <= k <= places.len(),
    ensures
        render_upto(places, k).take(place_line_spec(places[0], 0).len() as int) == place_line_spec(
            places[0],
            0,
        ),
        render_upto(places, k).len() >= place_line_spec(places[0], 0).len(),
    decreases k,
{
    let line0 = place_line_spec(places[0], 0);
    if k == 1 {
        assert(render_upto(places, 1) =~= line0);
        assert(render_upto(places, 1).take(line0.len() as int) =~= line0);
    } else {
        lemma_render_prefix(places, k - 1);
        assert(render_upto(places, k).take(line0.len() as int) =~= render_upto(
            places,
            k - 1,
        ).take(line0.len() as int));
    }
}

/// An `Attempt` whose failure, rendered and logged, ends the process: the
/// one sanctioned boundary where an error becomes fatal. Terminating the
/// process is the implementer's side; no implementation lives here.
pub trait ExtResult<T> {
    /// The value, or a rendered, logged, process-terminating report.
    fn unwrap_or_stderr(self) -> T;
}

/// An optional value that can be raised to an `Attempt`, failing with the
/// given record when it is absent.
pub trait MapOption<T>: Sized {
    /// The value, if one is present.
    spec fn spec_value(self) -> Option<T>;

    /// The value, or the given failure.
    fn attempt(self, f: Fail) -> (r: Attempt<T>)
        requires
            f.wf(),
        ensures
            r is Ok <==> self.spec_value() is Some,
            r is Ok ==> r->Ok_0 == self.spec_value()->0,
            r is Err ==> r->Err_0 == f && r->Err_0.wf(),
    ;
}

impl<T> MapOption<T> for Option<T> {
    open spec fn spec_value(self) -> Option<T> {
        self
    }

    fn attempt(self, f: Fail) -> (r: Attempt<T>) {
        match self {
            Some(v) => Ok(v),
            None => Err(f),
        }
    }
}

} // verus!
