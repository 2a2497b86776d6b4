//! Assembling extra map shapes from a stream of markup events. The reader
//! that walks the file hands this machine each element start and each run
//! of text (with coordinate text pre-parsed into points); the machine
//! decides what each event means in context: which attribute the next text
//! belongs to, when a shape is complete, and which shapes to skip.
//!
//! Shapes are numbered in the order they are completed, and a shape's
//! attributes are exactly those collected since the previous shape.

use vstd::prelude::*;

use crate::polyline::PolyLine;
use crate::pt::Pt2D;

verus! {

/// Identifier of one extra shape, in completion order.
#[derive(Clone, Copy, Debug, PartialEq, Eq, Structural, PartialOrd, Ord, Hash)]
pub struct ExtraShapeID(pub usize);

/// One shape read from the file: its points and its textual attributes.
#[derive(Clone, Debug, PartialEq, Eq)]
pub struct ExtraShape {
    pub id: ExtraShapeID,
    pub pts: PolyLine,
    pub attributes: Vec<(String, String)>,
}

/// What kind of element a start tag opened, as far as the loader cares.
#[derive(Clone, Debug, PartialEq, Eq)]
pub enum KmlElement {
    /// A placemark: real shape data follows from here on.
    Placemark,
    /// A data field carrying the named attribute.
    SimpleData(String),
    /// The coordinate list of a shape.
    Coordinates,
    /// Anything else.
    Other,
}

/// Which attribute the next run of text belongs to.
#[derive(Clone, Debug, PartialEq, Eq)]
pub enum CurrentKey {
    Coordinates,
    Named(String),
}

/// No two collected attributes share a key.
pub open spec fn attr_keys_unique(s: Seq<(String, String)>) -> bool {
    forall|i: int, j: int|
        0 <= i < s.len() && 0 <= j < s.len() && i != j ==> (#[trigger] s[i]).0@ != (
        #[trigger] s[j]).0@
}

/// Is this key among the collected attributes?
pub open spec fn attrs_contain_key(s: Seq<(String, String)>, key: Seq<char>) -> bool {
    exists|i: int| 0 <= i < s.len() && (#[trigger] s[i]).0@ == key
}

/// The index holding this key; the one index, when keys are unique.
pub open spec fn attr_index_of(s: Seq<(String, String)>, key: Seq<char>) -> int {
    choose|i: int| 0 <= i < s.len() && (#[trigger] s[i]).0@ == key
}

/// The incremental shape loader.
#[derive(Debug)]
pub struct KmlLoader {
    /// Seen the first placemark yet? Text before it is schema noise.
    pub scanned_schema: bool,
    /// Which attribute the next text run belongs to, if any.
    pub attrib_key: Option<CurrentKey>,
    /// Attributes collected for the shape being assembled.
    pub attributes: Vec<(String, String)>,
    /// Shapes completed so far, numbered in order.
    pub shapes: Vec<ExtraShape>,
    /// Coordinate lists that failed to parse.
    pub skipped: usize,
}

impl KmlLoader {
    /// Attribute keys are unique and shapes carry their index as id.
    pub open spec fn wf(self) -> bool {
        &&& attr_keys_unique(self.attributes@)
        &&& forall|i: int|
            0 <= i < self.shapes@.len() ==> (#[trigger] self.shapes@[i]).id == ExtraShapeID(
                i as usize,
            )
    }

    pub fn new() -> (l: KmlLoader)
        ensures
            l.wf(),
            !l.scanned_schema,
            l.attrib_key is None,
            l.attributes@.len() == 0,
            l.shapes@.len() == 0,
            l.skipped == 0,
    {
        KmlLoader {
            scanned_schema: false,
            attrib_key: None,
            attributes: Vec::new(),
            shapes: Vec::new(),
            skipped: 0,
        }
    }

    /// React to an element start: remember what the next text run will
    /// mean. A placemark additionally marks the schema as scanned.
    pub fn start(&mut self, elem: KmlElement)
        requires
            old(self).wf(),
        ensures
            final(self).wf(),
            final(self).attributes == old(self).attributes,
            final(self).shapes == old(self).shapes,
            final(self).skipped == old(self).skipped,
            elem == KmlElement::Placemark ==> final(self).scanned_schema && final(self).attrib_key
                == old(self).attrib_key,
            elem != KmlElement::Placemark ==> final(self).scanned_schema == old(
                self,
            ).scanned_schema,
            (elem matches KmlElement::SimpleData(k) ==> final(self).attrib_key == Some(
                CurrentKey::Named(k),
            )),
            elem == KmlElement::Coordinates ==> final(self).attrib_key == Some(
                CurrentKey::Coordinates,
            ),
            elem == KmlElement::Other ==> final(self).attrib_key is None,
    {
        match elem {
            KmlElement::Placemark => {
                self.scanned_schema = true;
            },
            KmlElement::SimpleData(k) => {
                self.attrib_key = Some(CurrentKey::Named(k));
            },
            KmlElement::Coordinates => {
                self.attrib_key = Some(CurrentKey::Coordinates);
            },
            KmlElement::Other => {
                self.attrib_key = None;
            },
        }
    }

    /// React to a run of text. Before the first placemark, or outside any
    /// recognized element, it means nothing. Inside a coordinate element
    /// it completes a shape (or counts a skip, if the coordinates did not
    /// parse: `pts` is the parsed form of `raw`, if it has one), and the
    /// collected attributes are consumed either way. Inside a named data
    /// element it records that attribute, replacing any earlier value.
    #[verifier::loop_isolation(false)]
    pub fn text(&mut self, raw: String, pts: Option<Vec<Pt2D>>)
        requires
            old(self).wf(),
            old(self).skipped < usize::MAX,
        ensures
            final(self).wf(),
            final(self).scanned_schema == old(self).scanned_schema,
            final(self).attrib_key == old(self).attrib_key,
            !old(self).scanned_schema || old(self).attrib_key is None ==> *final(self) == *old(
                self,
            ),
            old(self).scanned_schema && old(self).attrib_key == Some(CurrentKey::Coordinates)
                ==> ({
                &&& final(self).attributes@.len() == 0
                &&& (pts matches Some(p) ==> ({
                    &&& final(self).skipped == old(self).skipped
                    &&& final(self).shapes@.len() == old(self).shapes@.len() + 1
                    &&& (forall|i: int|
                        0 <= i < old(self).shapes@.len() ==> final(self).shapes@[i] == old(
                            self,
                        ).shapes@[i])
                    &&& final(self).shapes@.last().id == ExtraShapeID(
                        old(self).shapes@.len() as usize,
                    )
                    &&& final(self).shapes@.last().pts.pts == p
                    &&& final(self).shapes@.last().attributes == old(self).attributes
                }))
                &&& (pts is None ==> final(self).shapes == old(self).shapes && final(self).skipped
                    == old(self).skipped + 1)
            }),
            (old(self).attrib_key matches Some(CurrentKey::Named(key)) ==> old(
                self,
            ).scanned_schema ==> ({
                &&& final(self).shapes == old(self).shapes
                &&& final(self).skipped == old(self).skipped
                &&& (attrs_contain_key(old(self).attributes@, key@) ==> final(self).attributes@
                    == old(self).attributes@.update(
                    attr_index_of(old(self).attributes@, key@),
                    (key, raw),
                ))
                &&& (!attrs_contain_key(old(self).attributes@, key@) ==> final(self).attributes@
                    == old(self).attributes@.push((key, raw)))
            })),
    {
        if !self.scanned_schema {
            return ;
        }
        let is_coords: bool;
        let mut named: Option<String> = None;
        match &self.attrib_key {
            None => {
                return ;
            },
            Some(CurrentKey::Coordinates) => {
                is_coords = true;
            },
            Some(CurrentKey::Named(k)) => {
                is_coords = false;
                named = Some(k.clone());
            },
        }
        if is_coords {
            match pts {
                Some(p) => {
                    let id = ExtraShapeID(self.shapes.len());
                    let mut attributes: Vec<(String, String)> = Vec::new();
                    std::mem::swap(&mut attributes, &mut self.attributes);
                    self.shapes.push(ExtraShape { id, pts: PolyLine::new(p), attributes });
                },
                None => {
                    self.skipped = self.skipped + 1;
                    self.attributes = Vec::new();
                },
            }
        } else if let Some(key) = named {
            proof {
                assert(old(self).attrib_key == Some(CurrentKey::Named(key)));
            }
            let mut i: usize = 0;
            let n: usize = self.attributes.len();
            while i < n
                invariant
                    n == self.attributes@.len(),
                    i <= n,
                    self.scanned_schema == old(self).scanned_schema,
                    self.attrib_key == old(self).attrib_key,
                    self.shapes == old(self).shapes,
                    self.skipped == old(self).skipped,
                    self.attributes == old(self).attributes,
                    forall|j: int| 0 <= j < i ==> (#[trigger] self.attributes@[j]).0@ != key@,
                decreases n - i,
            {
                if self.attributes[i].0 == key {
                    proof {
                        assert(attrs_contain_key(self.attributes@, key@));
                        let k = attr_index_of(self.attributes@, key@);
                        assert(self.attributes@[k].0@ == key@);
                        assert(k == i);
                    }
                    let ghost before = self.attributes@;
                    self.attributes[i] = (key, raw);
                    proof {
                        assert(self.attributes@ =~= before.update(i as int, self.attributes@[i as int]));
                        assert(self.attributes@[i as int].0@ == before[i as int].0@);
                        assert forall|a: int, b: int|
                            0 <= a < self.attributes@.len() && 0 <= b < self.attributes@.len()
                                && a != b implies (#[trigger] self.attributes@[a]).0@ != (
                        #[trigger] self.attributes@[b]).0@ by {
                            assert(before[a].0@ != before[b].0@);
                        }
                    }
                    return ;
                }
                i += 1;
            }
            proof {
                assert(!attrs_contain_key(self.attributes@, key@));
            }
            self.attributes.push((key, raw));
        }
    }
}

} // verus!
