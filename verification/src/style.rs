//! The style of one shape: a `key:value;key:value` string read into a map
//! from property name to raw value, with typed accessors on top.

use crate::color::{color_from, svg_paint_color, to_color, Color};
use crate::error::{MalformedValue, Property, SvgError};
use crate::number::Number;
use crate::svg_syntax::{length_number, number_list, svg_length_number, svg_number_list};
use crate::markup::cell_view;
use crate::text::{chars_of, find_in, first_index, same_text};
use vstd::prelude::*;
use vstd::std_specs::convert::FromSpecImpl;

verus! {

/// A piece of a style string split at its first `:`; `None` where it holds no
/// `:`.
pub open spec fn split_pair(piece: Seq<char>) -> Option<(Seq<char>, Seq<char>)> {
    let colon = first_index(piece, ':');
    if 0 <= colon < piece.len() {
        Some((piece.subrange(0, colon), piece.subrange(colon + 1, piece.len() as int)))
    } else {
        None
    }
}

/// The `(key, value)` pairs of a style string, in the order they are written.
/// The string is cut at every `;`; a piece without `:` gives no pair.
pub open spec fn style_entries(text: Seq<char>) -> Seq<(Seq<char>, Seq<char>)>
    decreases text.len(),
{
    let end = first_index(text, ';');
    if 0 <= end < text.len() {
        let rest = style_entries(text.subrange(end + 1, text.len() as int));
        match split_pair(text.subrange(0, end)) {
            Some(pair) => seq![pair] + rest,
            None => rest,
        }
    } else {
        match split_pair(text) {
            Some(pair) => seq![pair],
            None => Seq::empty(),
        }
    }
}

/// The value that `entries` gives to `key`: that of the last pair with that
/// key.
pub open spec fn lookup(entries: Seq<(Seq<char>, Seq<char>)>, key: Seq<char>) -> Option<
    Seq<char>,
>
    decreases entries.len(),
{
    if entries.len() == 0 {
        None
    } else if entries.last().0 == key {
        Some(entries.last().1)
    } else {
        lookup(entries.drop_last(), key)
    }
}

/// The map that a sequence of pairs stands for.
pub open spec fn entries_map(entries: Seq<(Seq<char>, Seq<char>)>) -> Map<Seq<char>, Seq<char>> {
    Map::new(
        |key: Seq<char>| lookup(entries, key) is Some,
        |key: Seq<char>| lookup(entries, key).unwrap(),
    )
}

/// The map from property name to raw value that a style string stands for.
pub open spec fn style_map(text: Seq<char>) -> Map<Seq<char>, Seq<char>> {
    entries_map(style_entries(text))
}

/// The pairs held in a vector of owned strings, as sequences of characters.
pub open spec fn entries_view(entries: Seq<(String, String)>) -> Seq<(Seq<char>, Seq<char>)> {
    entries.map_values(|pair: (String, String)| (pair.0@, pair.1@))
}

/// How the two ends of an open stroke are drawn.
#[derive(Clone, Copy, Debug, PartialEq, Eq, Structural)]
pub enum LineCap {
    Butt,
    Square,
    Round,
}

/// How two segments of a stroke are joined.
#[derive(Clone, Copy, Debug, PartialEq, Eq, Structural)]
pub enum LineJoin {
    Miter,
    MiterClip,
    Round,
    Bevel,
}

/// The cap that a `stroke-linecap` value names.
pub open spec fn linecap_of(value: Seq<char>) -> Option<LineCap> {
    if value == "butt"@ {
        Some(LineCap::Butt)
    } else if value == "round"@ {
        Some(LineCap::Round)
    } else if value == "square"@ {
        Some(LineCap::Square)
    } else {
        None
    }
}

/// The join that a `stroke-linejoin` value names. `butt` is read as `bevel`,
/// and `miterclip` as `miter-clip`.
pub open spec fn linejoin_of(value: Seq<char>) -> Option<LineJoin> {
    if value == "miter"@ {
        Some(LineJoin::Miter)
    } else if value == "round"@ {
        Some(LineJoin::Round)
    } else if value == "bevel"@ || value == "butt"@ {
        Some(LineJoin::Bevel)
    } else if value == "miter-clip"@ || value == "miterclip"@ {
        Some(LineJoin::MiterClip)
    } else {
        None
    }
}

/// The color of a required paint property, with the given alpha channel:
/// an error where the property is absent, `None` where its value is not a
/// plain color.
pub open spec fn paint_of(
    map: Map<Seq<char>, Seq<char>>,
    key: Seq<char>,
    property: Property,
    alpha: u8,
) -> Result<Option<Color>, SvgError> {
    if map.contains_key(key) {
        Ok(color_from(svg_paint_color(map[key]), alpha))
    } else {
        Err(SvgError::MissingStyleProperty(property))
    }
}

/// The properties of one shape.
#[derive(Debug)]
pub struct SvgStyle {
    entries: Vec<(String, String)>,
    id: Option<String>,
    class: Option<String>,
}

impl View for SvgStyle {
    type V = Map<Seq<char>, Seq<char>>;

    closed spec fn view(&self) -> Map<Seq<char>, Seq<char>> {
        entries_map(entries_view(self.entries@))
    }
}

/// The style that shapes have where the document gives none.
pub open spec fn default_style_text() -> Seq<char> {
    "fill:none;stroke:#000000;stroke-width:0.264583px;stroke-linecap:butt;stroke-linejoin:miter;stroke-opacity:1"@
}

impl From<&str> for SvgStyle {
    /// Reads a style string, as `SvgStyle::parse` does.
    fn from(text: &str) -> (style: SvgStyle)
        ensures
            style@ == style_map(text@),
            style.id_view() is None,
            style.class_view() is None,
    {
        SvgStyle::parse(text)
    }
}

impl FromSpecImpl<&str> for SvgStyle {
    open spec fn obeys_from_spec() -> bool {
        false
    }

    open spec fn from_spec(text: &str) -> SvgStyle {
        arbitrary()
    }
}

impl Default for SvgStyle {
    /// The default style: no fill, a thin opaque black stroke.
    fn default() -> (style: SvgStyle)
        ensures
            style@ == style_map(default_style_text()),
            style.id_view() is None,
            style.class_view() is None,
    {
        SvgStyle::parse(
            "fill:none;stroke:#000000;stroke-width:0.264583px;stroke-linecap:butt;stroke-linejoin:miter;stroke-opacity:1",
        )
    }
}

impl SvgStyle {
    /// The `id` of the node that carries the style.
    pub closed spec fn id_view(&self) -> Option<Seq<char>> {
        cell_view(self.id)
    }

    /// The `class` of the node that carries the style.
    pub closed spec fn class_view(&self) -> Option<Seq<char>> {
        cell_view(self.class)
    }

    /// The same properties, on a node with the given `id` and `class`.
    pub fn with_identity(self, id: Option<String>, class: Option<String>) -> (style: SvgStyle)
        ensures
            style@ == self@,
            style.id_view() == cell_view(id),
            style.class_view() == cell_view(class),
    {
        SvgStyle { entries: self.entries, id, class }
    }

    /// The `id` of the node that carries the style, if it has one.
    pub fn id(&self) -> (r: Option<&str>)
        ensures
            match r {
                Some(id) => self.id_view() == Some(id@),
                None => self.id_view() is None,
            },
    {
        match &self.id {
            Some(id) => Some(id.as_str()),
            None => None,
        }
    }

    /// The `class` of the node that carries the style, if it has one.
    pub fn class(&self) -> (r: Option<&str>)
        ensures
            match r {
                Some(class) => self.class_view() == Some(class@),
                None => self.class_view() is None,
            },
    {
        match &self.class {
            Some(class) => Some(class.as_str()),
            None => None,
        }
    }

    /// Reads a style string. Never fails: a piece without `:` is passed over.
    pub fn parse(text: &str) -> (style: SvgStyle)
        ensures
            style@ == style_map(text@),
            style.id_view() is None,
            style.class_view() is None,
    {
        let chars = chars_of(text);
        let n = chars.len();
        let mut entries: Vec<(String, String)> = Vec::new();
        let mut start: usize = 0;
        let mut done = false;
        proof {
            assert(text@.subrange(0, n as int) == text@);
            assert(entries_view(entries@) + style_entries(text@) == style_entries(text@));
        }
        while !done
            invariant
                chars@ == text@,
                n == chars.len(),
                start <= n,
                !done ==> style_entries(text@) == entries_view(entries@) + style_entries(
                    text@.subrange(start as int, n as int),
                ),
                done ==> style_entries(text@) == entries_view(entries@),
            decreases
                    (if done {
                        0
                    } else {
                        1 + n - start
                    }),
        {
            let end = find_in(&chars, start, n, ';');
            let colon = find_in(&chars, start, end, ':');
            let ghost suffix = text@.subrange(start as int, n as int);
            let ghost piece = text@.subrange(start as int, end as int);
            let ghost before = entries_view(entries@);
            proof {
                assert(end < n ==> suffix.subrange(0, end - start) == piece);
                assert(end == n ==> suffix == piece);
                assert(end < n ==> suffix.subrange(end - start + 1, suffix.len() as int)
                    == text@.subrange(end + 1, n as int));
            }
            if colon < end {
                let key = text.substring_char(start, colon).to_owned();
                let value = text.substring_char(colon + 1, end).to_owned();
                proof {
                    assert(piece.subrange(0, colon - start) == text@.subrange(
                        start as int,
                        colon as int,
                    ));
                    assert(piece.subrange(colon - start + 1, piece.len() as int) == text@.subrange(
                        colon + 1,
                        end as int,
                    ));
                    assert(entries_view(entries@.push((key, value))) == before.push(
                        (key@, value@),
                    ));
                    assert(before.push((key@, value@)) == before + seq![(key@, value@)]);
                }
                entries.push((key, value));
            }
            proof {
                if end < n {
                    let rest = style_entries(text@.subrange(end + 1, n as int));
                    assert(style_entries(suffix) == match split_pair(piece) {
                        Some(pair) => seq![pair] + rest,
                        None => rest,
                    });
                    if colon < end {
                        let pair = split_pair(piece).unwrap();
                        assert(before + (seq![pair] + rest) == (before + seq![pair]) + rest);
                    }
                } else {
                    assert(before + Seq::<(Seq<char>, Seq<char>)>::empty() == before);
                }
            }
            if end < n {
                start = end + 1;
            } else {
                done = true;
            }
        }
        SvgStyle { entries, id: None, class: None }
    }

    /// The raw value of `key`, if the style holds one.
    pub fn get(&self, key: &str) -> (r: Option<&str>)
        ensures
            match r {
                Some(value) => self@.contains_key(key@) && self@[key@] == value@,
                None => !self@.contains_key(key@),
            },
    {
        let ghost all = entries_view(self.entries@);
        let mut i: usize = self.entries.len();
        proof {
            assert(all.take(i as int) == all);
        }
        while i > 0
            invariant
                i <= self.entries.len(),
                all == entries_view(self.entries@),
                lookup(all, key@) == lookup(all.take(i as int), key@),
            decreases i,
        {
            i -= 1;
            proof {
                assert(all.take(i + 1).drop_last() == all.take(i as int));
                assert(all.take(i + 1).last() == all[i as int]);
            }
            if same_text(self.entries[i].0.as_str(), key) {
                return Some(self.entries[i].1.as_str());
            }
        }
        None
    }

    /// Whether the style holds a value for `key`.
    pub fn has(&self, key: &str) -> (r: bool)
        ensures
            r == self@.contains_key(key@),
    {
        self.get(key).is_some()
    }

    /// The stroke color, with `alpha` as its alpha channel. The caller
    /// derives `alpha` from the stroke opacity.
    ///
    /// An error where the style has no `stroke`; `None` where its value is
    /// not a plain color.
    pub fn stroke(&self, alpha: u8) -> (r: Result<Option<Color>, SvgError>)
        ensures
            r == paint_of(self@, "stroke"@, Property::Stroke, alpha),
    {
        if self.has("stroke") {
            Ok(to_color(self.panic_access("stroke"), alpha))
        } else {
            Err(SvgError::MissingStyleProperty(Property::Stroke))
        }
    }

    /// The fill color, with `alpha` as its alpha channel. The caller derives
    /// `alpha` from the fill opacity.
    ///
    /// An error where the style has no `fill`; `None` where its value is not
    /// a plain color.
    pub fn fill(&self, alpha: u8) -> (r: Result<Option<Color>, SvgError>)
        ensures
            r == paint_of(self@, "fill"@, Property::Fill, alpha),
    {
        if self.has("fill") {
            Ok(to_color(self.panic_access("fill"), alpha))
        } else {
            Err(SvgError::MissingStyleProperty(Property::Fill))
        }
    }

    /// The number in `stroke-width`, without its unit. `None` where the
    /// property is absent or is not a length.
    pub fn stroke_width(&self) -> (r: Option<Number>)
        ensures
            r == if self@.contains_key("stroke-width"@) {
                svg_length_number(self@["stroke-width"@])
            } else {
                None
            },
    {
        match self.get("stroke-width") {
            Some(value) => length_number(value),
            None => None,
        }
    }

    /// The numbers in `stroke-dasharray`. `Ok(None)` where the property is
    /// absent, an error where it is not a list of numbers.
    pub fn stroke_dasharray(&self) -> (r: Result<Option<Vec<Number>>, MalformedValue>)
        ensures
            match r {
                Ok(None) => !self@.contains_key("stroke-dasharray"@),
                Ok(Some(list)) => self@.contains_key("stroke-dasharray"@) && svg_number_list(
                    self@["stroke-dasharray"@],
                ) == Some(list@),
                Err(_) => self@.contains_key("stroke-dasharray"@) && svg_number_list(
                    self@["stroke-dasharray"@],
                ) is None,
            },
    {
        match self.get("stroke-dasharray") {
            Some(value) => match number_list(value) {
                Some(list) => Ok(Some(list)),
                None => Err(MalformedValue),
            },
            None => Ok(None),
        }
    }

    /// The cap named by `stroke-linecap`. `None` where the property is absent
    /// or names no cap.
    pub fn stroke_linecap(&self) -> (r: Option<LineCap>)
        ensures
            r == if self@.contains_key("stroke-linecap"@) {
                linecap_of(self@["stroke-linecap"@])
            } else {
                None
            },
    {
        match self.get("stroke-linecap") {
            Some(value) => {
                if same_text(value, "butt") {
                    Some(LineCap::Butt)
                } else if same_text(value, "round") {
                    Some(LineCap::Round)
                } else if same_text(value, "square") {
                    Some(LineCap::Square)
                } else {
                    None
                }
            },
            None => None,
        }
    }

    /// The join named by `stroke-linejoin`. `None` where the property is
    /// absent or names no join.
    pub fn stroke_linejoin(&self) -> (r: Option<LineJoin>)
        ensures
            r == if self@.contains_key("stroke-linejoin"@) {
                linejoin_of(self@["stroke-linejoin"@])
            } else {
                None
            },
    {
        match self.get("stroke-linejoin") {
            Some(value) => {
                if same_text(value, "miter") {
                    Some(LineJoin::Miter)
                } else if same_text(value, "round") {
                    Some(LineJoin::Round)
                } else if same_text(value, "bevel") || same_text(value, "butt") {
                    Some(LineJoin::Bevel)
                } else if same_text(value, "miter-clip") || same_text(value, "miterclip") {
                    Some(LineJoin::MiterClip)
                } else {
                    None
                }
            },
            None => None,
        }
    }

    /// The raw value of a key that the style is known to hold.
    pub fn panic_access(&self, key: &str) -> (value: &str)
        requires
            self@.contains_key(key@),
        ensures
            value@ == self@[key@],
    {
        match self.get(key) {
            Some(value) => value,
            None => {
                assert(false);
                vstd::pervasive::unreached()
            },
        }
    }
}

/// A pair that can be written into a style string and read back: no `;` in
/// it, and no `:` in its key.
pub open spec fn well_formed_pair(pair: (Seq<char>, Seq<char>)) -> bool {
    !pair.0.contains(';') && !pair.0.contains(':') && !pair.1.contains(';')
}

/// One pair written as `key:value`.
pub open spec fn write_pair(pair: (Seq<char>, Seq<char>)) -> Seq<char> {
    pair.0 + seq![':'] + pair.1
}

/// The pairs written as `key:value`, with `;` between them.
pub open spec fn join_pairs(pairs: Seq<(Seq<char>, Seq<char>)>) -> Seq<char>
    decreases pairs.len(),
{
    if pairs.len() == 0 {
        Seq::empty()
    } else if pairs.len() == 1 {
        write_pair(pairs[0])
    } else {
        write_pair(pairs[0]) + seq![';'] + join_pairs(pairs.drop_first())
    }
}

/// A written pair is split back into its key and its value.
pub proof fn lemma_split_written_pair(pair: (Seq<char>, Seq<char>))
    requires
        !pair.0.contains(':'),
    ensures
        split_pair(write_pair(pair)) == Some(pair),
{
    let piece = write_pair(pair);
    let k = pair.0.len() as int;
    assert forall|j: int| 0 <= j < k implies piece[j] != ':' by {
        assert(piece[j] == pair.0[j]);
        assert(pair.0.contains(pair.0[j]));
    }
    assert(piece[k] == ':');
    crate::text::lemma_first_index_is(piece, ':', k);
    assert(piece.subrange(0, k) == pair.0);
    assert(piece.subrange(k + 1, piece.len() as int) == pair.1);
}

/// Reading what `join_pairs` wrote gives the pairs back, in order.
pub proof fn lemma_entries_of_joined(pairs: Seq<(Seq<char>, Seq<char>)>)
    requires
        forall|i: int| 0 <= i < pairs.len() ==> well_formed_pair(#[trigger] pairs[i]),
    ensures
        style_entries(join_pairs(pairs)) == pairs,
    decreases pairs.len(),
{
    let text = join_pairs(pairs);
    if pairs.len() == 0 {
        assert(first_index(text, ':') == 0);
        assert(style_entries(text) == pairs);
    } else {
        let head = write_pair(pairs[0]);
        let h = head.len() as int;
        lemma_split_written_pair(pairs[0]);
        assert forall|j: int| 0 <= j < h implies head[j] != ';' by {
            let k = pairs[0].0.len() as int;
            if j < k {
                assert(head[j] == pairs[0].0[j]);
                assert(pairs[0].0.contains(pairs[0].0[j]));
            } else if j > k {
                assert(head[j] == pairs[0].1[j - k - 1]);
                assert(pairs[0].1.contains(pairs[0].1[j - k - 1]));
            }
        }
        if pairs.len() == 1 {
            crate::text::lemma_first_index_is(text, ';', h);
            assert(style_entries(text) == seq![pairs[0]]);
            assert(seq![pairs[0]] == pairs);
        } else {
            let tail = pairs.drop_first();
            assert forall|i: int| 0 <= i < tail.len() implies well_formed_pair(
                #[trigger] tail[i],
            ) by {
                assert(tail[i] == pairs[i + 1]);
            }
            lemma_entries_of_joined(tail);
            assert forall|j: int| 0 <= j < h implies text[j] != ';' by {
                assert(text[j] == head[j]);
            }
            assert(text[h] == ';');
            crate::text::lemma_first_index_is(text, ';', h);
            assert(text.subrange(0, h) == head);
            assert(text.subrange(h + 1, text.len() as int) == join_pairs(tail));
            assert(style_entries(text) == seq![pairs[0]] + tail);
            assert(seq![pairs[0]] + tail == pairs);
        }
    }
}

/// A pair that no later pair overrides is what `lookup` finds for its key.
pub proof fn lemma_lookup_finds(entries: Seq<(Seq<char>, Seq<char>)>, i: int)
    requires
        0 <= i < entries.len(),
    ensures
        lookup(entries, entries[i].0) is Some,
        (forall|j: int| i < j < entries.len() ==> entries[j].0 != entries[i].0) ==> lookup(
            entries,
            entries[i].0,
        ) == Some(entries[i].1),
    decreases entries.len(),
{
    if entries.last().0 == entries[i].0 {
    } else {
        assert(i < entries.len() - 1);
        assert(entries.drop_last()[i] == entries[i]);
        lemma_lookup_finds(entries.drop_last(), i);
        assert forall|j: int| i < j < entries.len() - 1 implies entries.drop_last()[j]
            == entries[j] by {}
    }
}

/// What `lookup` finds is the value of one of the pairs with that key.
pub proof fn lemma_lookup_found(entries: Seq<(Seq<char>, Seq<char>)>, key: Seq<char>)
    requires
        lookup(entries, key) is Some,
    ensures
        exists|i: int|
            0 <= i < entries.len() && #[trigger] entries[i] == (key, lookup(entries, key).unwrap()),
    decreases entries.len(),
{
    if entries.last().0 == key {
        assert(entries[entries.len() - 1] == (key, lookup(entries, key).unwrap()));
    } else {
        lemma_lookup_found(entries.drop_last(), key);
        let i = choose|i: int|
            0 <= i < entries.drop_last().len() && #[trigger] entries.drop_last()[i] == (
                key,
                lookup(entries.drop_last(), key).unwrap(),
            );
        assert(entries[i] == entries.drop_last()[i]);
    }
}

/// Style parsing round-trips: in the string written from well-formed pairs,
/// every key can be retrieved, the value retrieved for a key is the raw value
/// of the last pair written with it, and nothing else can be retrieved.
pub proof fn lemma_style_round_trip(pairs: Seq<(Seq<char>, Seq<char>)>)
    requires
        forall|i: int| 0 <= i < pairs.len() ==> well_formed_pair(#[trigger] pairs[i]),
    ensures
        forall|i: int|
            0 <= i < pairs.len() ==> style_map(join_pairs(pairs)).contains_key(
                #[trigger] pairs[i].0,
            ),
        forall|i: int|
            0 <= i < pairs.len() && (forall|j: int|
                i < j < pairs.len() ==> pairs[j].0 != pairs[i].0) ==> style_map(
                join_pairs(pairs),
            )[#[trigger] pairs[i].0] == pairs[i].1,
        forall|key: Seq<char>| #[trigger]
            style_map(join_pairs(pairs)).contains_key(key) ==> exists|i: int|
                0 <= i < pairs.len() && #[trigger] pairs[i] == (
                    key,
                    style_map(join_pairs(pairs))[key],
                ),
{
    lemma_entries_of_joined(pairs);
    let map = style_map(join_pairs(pairs));
    assert forall|i: int| 0 <= i < pairs.len() implies map.contains_key(
        #[trigger] pairs[i].0,
    ) && ((forall|j: int| i < j < pairs.len() ==> pairs[j].0 != pairs[i].0) ==> map[pairs[i].0]
        == pairs[i].1) by {
        lemma_lookup_finds(pairs, i);
    }
    assert forall|key: Seq<char>| #[trigger] map.contains_key(key) implies exists|i: int|
        0 <= i < pairs.len() && #[trigger] pairs[i] == (key, map[key]) by {
        lemma_lookup_found(pairs, key);
    }
}

} // verus!
