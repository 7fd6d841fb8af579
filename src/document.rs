//! Finds the path data of an SVG document: the values of its `d`
//! attributes, in document order. The XML scanning is svgparser's.
use vstd::prelude::*;
use vstd::utf8::encode_utf8;
use crate::coord::{CoordinatePair, Polyline, all_points};
use crate::current_line::PathError;
use crate::path::{Curve, PathParser, path_outcome};
use svgparser::xmlparser::FromSpan;
use svgparser::svg::{Name, Token, Tokenizer};

verus! {

/// One event of the document scanner.
#[derive(Debug)]
pub enum SvgEvent {
    /// An attribute: namespace prefix (empty when there is none), local
    /// name, and value as written.
    Attribute { prefix: String, name: String, value: String },
    /// Any other part of the document.
    Other,
}

/// What an event of the scanner says, as text.
pub ghost enum ScanEvent {
    Attribute { prefix: Seq<char>, name: Seq<char>, value: Seq<char> },
    Other,
}

impl View for SvgEvent {
    type V = ScanEvent;

    open spec fn view(&self) -> ScanEvent {
        match self {
            SvgEvent::Attribute { prefix, name, value } => ScanEvent::Attribute {
                prefix: prefix@,
                name: name@,
                value: value@,
            },
            SvgEvent::Other => ScanEvent::Other,
        }
    }
}

/// The scanner could not read the document.
#[derive(Debug, PartialEq, Eq)]
pub struct ScanError {
    pub message: String,
}

/// The events that svgparser's SVG tokenizer reports for the document
/// `svg`, in order; or the text of the error that stops it. The tokenizer
/// reads nothing but the text.
pub uninterp spec fn scan_of(svg: Seq<char>) -> Result<Seq<ScanEvent>, Seq<char>>;

/// Relies on svgparser's SVG `Tokenizer` (made by `FromSpan::from_str`,
/// read through `Iterator::next`): its tokens, up to the end of the text or
/// up to the first error. Attribute names come as written: an SVG
/// attribute's name is `AttributeId::name`.
#[verifier::external_body]
fn scan(svg: &str) -> (r: Result<Vec<SvgEvent>, ScanError>)
    ensures
        match scan_of(svg@) {
            Ok(events) => r is Ok && r->Ok_0@.map_values(|e: SvgEvent| e@) == events,
            Err(m) => r is Err && r->Err_0.message@ == m,
        },
{
    let mut events = Vec::new();
    for t in Tokenizer::from_str(svg) {
        events.push(match t {
            Err(e) => return Err(ScanError { message: e.to_string() }),
            Ok(Token::Attribute(n, v)) => SvgEvent::Attribute {
                prefix: n.prefix.to_string(),
                name: match n.local { Name::Svg(id) => id.name().to_string(), Name::Xml(x) => x.to_string() },
                value: v.to_str().to_string(),
            },
            Ok(_) => SvgEvent::Other,
        });
    }
    Ok(events)
}

/// Whether an event is an attribute named exactly `d`, with no prefix.
pub open spec fn is_path_data(e: ScanEvent) -> bool {
    match e {
        ScanEvent::Attribute { prefix, name, value } => prefix == Seq::<char>::empty() && name
            == seq!['d'],
        ScanEvent::Other => false,
    }
}

/// The value of an attribute event.
pub open spec fn event_value(e: ScanEvent) -> Seq<char> {
    match e {
        ScanEvent::Attribute { value, .. } => value,
        ScanEvent::Other => Seq::<char>::empty(),
    }
}

/// The values of the `d` attributes among `events`, in order.
pub open spec fn path_data_of(events: Seq<ScanEvent>) -> Seq<Seq<char>>
    decreases events.len(),
{
    if events.len() == 0 {
        Seq::<Seq<char>>::empty()
    } else {
        let rest = path_data_of(events.drop_last());
        if is_path_data(events.last()) {
            rest.push(event_value(events.last()))
        } else {
            rest
        }
    }
}

fn is_path_data_event(e: &SvgEvent) -> (r: bool)
    ensures
        r == is_path_data(e@),
{
    match e {
        SvgEvent::Attribute { prefix, name, .. } => {
            let p = prefix.as_str();
            let n = name.as_str();
            proof {
                reveal_strlit("d");
            }
            if p.unicode_len() != 0 || n.unicode_len() != 1 {
                assert(p@.len() != 0 ==> p@ != Seq::<char>::empty());
                assert(n@.len() != 1 ==> n@ != seq!['d']);
                return false;
            }
            assert(p@ =~= Seq::<char>::empty());
            let c = n.get_char(0);
            if c == 'd' {
                assert(n@ =~= seq!['d']);
                true
            } else {
                false
            }
        },
        SvgEvent::Other => false,
    }
}

/// Selects the values of the `d` attributes among `events`, in order.
pub fn select_path_data(events: &Vec<SvgEvent>) -> (r: Vec<String>)
    ensures
        r@.map_values(|s: String| s@) == path_data_of(events@.map_values(|e: SvgEvent| e@)),
{
    let mut out: Vec<String> = Vec::new();
    let mut i: usize = 0;
    while i < events.len()
        invariant
            i <= events@.len(),
            out@.map_values(|s: String| s@) == path_data_of(
                events@.subrange(0, i as int).map_values(|e: SvgEvent| e@),
            ),
        decreases events@.len() - i,
    {
        let ghost before = out@;
        assert(events@.subrange(0, i + 1).map_values(|e: SvgEvent| e@).drop_last()
            =~= events@.subrange(0, i as int).map_values(|e: SvgEvent| e@));
        assert(events@.subrange(0, i + 1).map_values(|e: SvgEvent| e@).last() == events@[i as int]@);
        if is_path_data_event(&events[i]) {
            if let SvgEvent::Attribute { value, .. } = &events[i] {
                out.push(value.clone());
                assert(out@.map_values(|s: String| s@) =~= before.map_values(|s: String| s@).push(
                    value@,
                ));
            }
        }
        i = i + 1;
    }
    assert(events@.subrange(0, i as int) =~= events@);
    out
}

/// The values of the `d` attributes of the SVG document `svg`, in document
/// order; or the scanner's error, which ends the whole document.
pub fn path_data(svg: &str) -> (r: Result<Vec<String>, ScanError>)
    ensures
        match scan_of(svg@) {
            Ok(events) => r is Ok && r->Ok_0@.map_values(|s: String| s@) == path_data_of(events),
            Err(m) => r is Err && r->Err_0.message@ == m,
        },
{
    match scan(svg) {
        Ok(events) => Ok(select_path_data(&events)),
        Err(e) => Err(e),
    }
}


/// The polylines of the first `n` path elements, whose path data are
/// `texts` and whose curves were flattened to `flats`, one list per
/// element: each element's polylines in turn, in document order. An
/// element that ends in an error adds the polylines finished before it.
pub open spec fn doc_lines(
    texts: Seq<Seq<char>>,
    flats: Seq<Seq<Seq<CoordinatePair>>>,
    n: int,
) -> Seq<Seq<CoordinatePair>>
    decreases n,
{
    if n <= 0 {
        Seq::<Seq<CoordinatePair>>::empty()
    } else {
        doc_lines(texts, flats, n - 1) + path_outcome(encode_utf8(texts[n - 1]), flats[n - 1], None).1
    }
}

/// The errors that ended the first `n` path elements early, each with the
/// index of its element, in document order.
pub open spec fn doc_errors(
    texts: Seq<Seq<char>>,
    flats: Seq<Seq<Seq<CoordinatePair>>>,
    n: int,
) -> Seq<(usize, PathError)>
    decreases n,
{
    if n <= 0 {
        Seq::<(usize, PathError)>::empty()
    } else {
        let e = path_outcome(encode_utf8(texts[n - 1]), flats[n - 1], None).2;
        if e is Some {
            doc_errors(texts, flats, n - 1).push(((n - 1) as usize, e->Some_0))
        } else {
            doc_errors(texts, flats, n - 1)
        }
    }
}

proof fn lemma_doc_prefix(
    texts: Seq<Seq<char>>,
    f: Seq<Seq<Seq<CoordinatePair>>>,
    g: Seq<Seq<Seq<CoordinatePair>>>,
    n: int,
)
    requires
        n <= f.len(),
        n <= g.len(),
        forall|k: int| 0 <= k < n ==> f[k] == g[k],
    ensures
        doc_lines(texts, f, n) == doc_lines(texts, g, n),
        doc_errors(texts, f, n) == doc_errors(texts, g, n),
    decreases n,
{
    if n > 0 {
        lemma_doc_prefix(texts, f, g, n - 1);
    }
}

/// The driver of a whole document: runs the path data of each `d`
/// attribute in turn, asking its caller to flatten each curve, as
/// `PathParser` does for one element. An error in one element ends that
/// element only; the next one is still run.
pub struct DocumentParser {
    paths: Vec<String>,
    index: usize,
    current: PathParser,
    lines: Vec<Polyline>,
    errors: Vec<(usize, PathError)>,
    flats: Ghost<Seq<Seq<Seq<CoordinatePair>>>>,
}

impl DocumentParser {
    /// The path data of the document's elements, in order.
    pub closed spec fn texts(&self) -> Seq<Seq<char>> {
        self.paths@.map_values(|s: String| s@)
    }

    /// The flattened curves handed back so far: one list per element
    /// started.
    pub closed spec fn supplied(&self) -> Seq<Seq<Seq<CoordinatePair>>> {
        if self.index < self.paths@.len() {
            self.flats@.push(self.current.supplied())
        } else {
            self.flats@
        }
    }

    /// Whether a curve waits for its flattened points.
    pub closed spec fn has_pending(&self) -> bool {
        self.index < self.paths@.len() && self.current.pending() is Some
    }

    /// Whether every element has been run.
    pub closed spec fn is_done(&self) -> bool {
        self.index >= self.paths@.len()
    }

    pub closed spec fn wf(&self) -> bool {
        &&& self.index <= self.paths@.len()
        &&& self.flats@.len() == self.index
        &&& all_points(self.lines@) == doc_lines(self.texts(), self.flats@, self.index as int)
        &&& self.errors@ == doc_errors(self.texts(), self.flats@, self.index as int)
        &&& self.index < self.paths@.len() ==> {
            &&& self.current.wf()
            &&& self.current.text() == encode_utf8(self.paths@[self.index as int]@)
            &&& self.current.min_step() is None
            &&& !self.current.is_done()
        }
    }

    fn parser_for(paths: &Vec<String>, i: usize) -> (r: PathParser)
        ensures
            r.wf(),
            r.supplied() == Seq::<Seq<CoordinatePair>>::empty(),
            r.min_step() is None,
            r.pending() is None,
            !r.is_done(),
            i < paths@.len() ==> r.text() == encode_utf8(paths@[i as int]@),
    {
        if i < paths.len() {
            PathParser::new(paths[i].as_str())
        } else {
            PathParser::new("")
        }
    }

    /// A driver for the SVG document `svg`; or the scanner's error, which
    /// ends the whole document.
    pub fn new(svg: &str) -> (r: Result<DocumentParser, ScanError>)
        ensures
            match scan_of(svg@) {
                Ok(events) => r is Ok && r->Ok_0.wf() && r->Ok_0.texts() == path_data_of(events)
                    && r->Ok_0.supplied().len() <= 1 && (forall|k: int|
                    0 <= k < r->Ok_0.supplied().len() ==> #[trigger] r->Ok_0.supplied()[k]
                        == Seq::<Seq<CoordinatePair>>::empty()) && !r->Ok_0.has_pending(),
                Err(m) => r is Err && r->Err_0.message@ == m,
            },
    {
        match path_data(svg) {
            Err(e) => Err(e),
            Ok(paths) => {
                let current = DocumentParser::parser_for(&paths, 0);
                let d = DocumentParser {
                    paths,
                    index: 0,
                    current,
                    lines: Vec::new(),
                    errors: Vec::new(),
                    flats: Ghost(Seq::empty()),
                };
                assert(all_points(d.lines@) =~= Seq::<Seq<CoordinatePair>>::empty());
                Ok(d)
            },
        }
    }

    /// Runs the elements up to the next curve and returns it, in absolute
    /// coordinates; `None` once every element has been run. Elements
    /// started meanwhile have no flattened curves yet.
    pub fn advance(&mut self) -> (r: Option<Curve>)
        requires
            old(self).wf(),
        ensures
            final(self).wf(),
            final(self).texts() == old(self).texts(),
            final(self).supplied().len() >= old(self).supplied().len(),
            final(self).supplied().subrange(0, old(self).supplied().len() as int) == old(
                self,
            ).supplied(),
            forall|k: int|
                old(self).supplied().len() <= k < final(self).supplied().len()
                    ==> #[trigger] final(self).supplied()[k] == Seq::<Seq<CoordinatePair>>::empty(),
            r is Some <==> final(self).has_pending(),
            r is None <==> final(self).is_done(),
            r is Some ==> r == path_outcome(
                encode_utf8(final(self).texts()[final(self).supplied().len() - 1]),
                final(self).supplied().last(),
                None,
            ).0,
    {
        loop
            invariant
                self.wf(),
                self.texts() == old(self).texts(),
                self.supplied().len() >= old(self).supplied().len(),
                self.supplied().subrange(0, old(self).supplied().len() as int) == old(
                    self,
                ).supplied(),
                forall|k: int|
                    old(self).supplied().len() <= k < self.supplied().len()
                        ==> #[trigger] self.supplied()[k] == Seq::<Seq<CoordinatePair>>::empty(),
            decreases self.paths@.len() - self.index,
        {
            if self.index >= self.paths.len() {
                return None;
            }
            let ghost before = self.supplied();
            match self.current.advance() {
                Some(c) => {
                    assert(self.supplied() == before);
                    return Some(c);
                },
                None => {
                    let ghost f = self.current.supplied();
                    let ghost old_flats = self.flats@;
                    let ghost i = self.index as int;
                    let mut finished = DocumentParser::parser_for(&self.paths, self.index + 1);
                    std::mem::swap(&mut self.current, &mut finished);
                    let (mut ls, e) = finished.finish();
                    let ghost prev_lines = self.lines@;
                    let ghost new_lines = ls@;
                    self.lines.append(&mut ls);
                    assert(all_points(prev_lines + new_lines) =~= all_points(prev_lines) + all_points(
                        new_lines,
                    ));
                    self.flats = Ghost(self.flats@.push(f));
                    proof {
                        lemma_doc_prefix(self.texts(), old_flats, self.flats@, i);
                    }
                    if let Some(err) = e {
                        self.errors.push((self.index, err));
                    }
                    self.index = self.index + 1;
                    assert(before == self.flats@);
                    assert(self.supplied().subrange(0, before.len() as int) =~= before);
                }
            }
        }
    }

    /// Hands back the flattened points of the pending curve, as
    /// `PathParser::add_flattened` does.
    pub fn add_flattened(&mut self, points: &Vec<CoordinatePair>)
        requires
            old(self).wf(),
            old(self).has_pending(),
        ensures
            final(self).wf(),
            final(self).texts() == old(self).texts(),
            final(self).supplied() == old(self).supplied().update(
                old(self).supplied().len() - 1,
                old(self).supplied().last().push(points@),
            ),
            !final(self).has_pending(),
            !final(self).is_done(),
    {
        self.current.add_flattened(points);
        assert(self.supplied() =~= old(self).supplied().update(
            old(self).supplied().len() - 1,
            old(self).supplied().last().push(points@),
        ));
    }

    /// The polylines of the document, each element's in turn, and the
    /// errors that ended elements early, each with its element's index.
    pub fn finish(self) -> (r: (Vec<Polyline>, Vec<(usize, PathError)>))
        requires
            self.wf(),
            self.is_done(),
        ensures
            all_points(r.0@) == doc_lines(self.texts(), self.supplied(), self.texts().len() as int),
            r.1@ == doc_errors(self.texts(), self.supplied(), self.texts().len() as int),
    {
        (self.lines, self.errors)
    }
}

} // verus!
