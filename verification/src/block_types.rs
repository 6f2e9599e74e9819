//! The block-type registry: an immutable mapping from numeric block-type id
//! to a display name, and from display name to a flat color. The two tables
//! mirror the two bundled configuration files and are composed to resolve
//! id to color; a missing id or missing color resolves to the fallback
//! magenta rather than failing.

use vstd::prelude::*;
use vstd::string::StrSliceExecFns;

verus! {

/// Color components are stored per-mille: this value stands for full
/// intensity (1.0 on the device side).
pub const COLOR_UNIT: u32 = 1000;

/// A flat block color, one per-mille component per channel.
#[derive(Clone, Copy, Debug, PartialEq, Eq, Structural)]
pub struct BlockColor {
    pub r: u32,
    pub g: u32,
    pub b: u32,
}

impl DeepView for BlockColor {
    type V = BlockColor;

    open spec fn deep_view(&self) -> BlockColor {
        *self
    }
}

/// A color as an RGBA quadruple with a fully opaque alpha channel.
pub open spec fn spec_rgba(c: BlockColor) -> Seq<u32> {
    seq![c.r, c.g, c.b, COLOR_UNIT]
}

/// The fallback color for unresolvable ids: magenta, fully opaque.
pub open spec fn spec_fallback_color() -> Seq<u32> {
    seq![COLOR_UNIT, 0u32, COLOR_UNIT, COLOR_UNIT]
}

impl BlockColor {
    /// The color as an RGBA quadruple with full alpha.
    pub fn to_rgba(&self) -> (r: [u32; 4])
        ensures
            r@ == spec_rgba(*self),
    {
        let r = [self.r, self.g, self.b, COLOR_UNIT];
        assert(r@ =~= spec_rgba(*self));
        r
    }
}

/// Whether `c` is an ASCII decimal digit.
pub open spec fn spec_is_digit(c: char) -> bool {
    ('0' as int) <= (c as int) && (c as int) <= ('9' as int)
}

/// Whether every character of `s` is an ASCII decimal digit.
pub open spec fn spec_all_digits(s: Seq<char>) -> bool {
    forall|i: int| 0 <= i < s.len() ==> spec_is_digit(#[trigger] s[i])
}

/// The number written by a digit string, most significant digit first.
pub open spec fn spec_digits_value(s: Seq<char>) -> int
    decreases s.len(),
{
    if s.len() == 0 {
        0
    } else {
        spec_digits_value(s.drop_last()) * 10 + (s.last() as int - ('0' as int))
    }
}

/// What a decimal block-id string denotes: an optional leading `+`, then at
/// least one digit, and a value that fits in 32 bits; anything else is not
/// an id.
pub open spec fn spec_parse_u32(s: Seq<char>) -> Option<u32> {
    let t = if s.len() > 0 && s[0] == '+' {
        s.skip(1)
    } else {
        s
    };
    if t.len() > 0 && spec_all_digits(t) && spec_digits_value(t) <= u32::MAX {
        Some(spec_digits_value(t) as u32)
    } else {
        None
    }
}

proof fn lemma_digits_value_nonneg(s: Seq<char>)
    requires
        spec_all_digits(s),
    ensures
        spec_digits_value(s) >= 0,
    decreases s.len(),
{
    if s.len() > 0 {
        assert(spec_all_digits(s.drop_last()));
        lemma_digits_value_nonneg(s.drop_last());
    }
}

proof fn lemma_digits_take_step(s: Seq<char>, k: int)
    requires
        0 <= k < s.len(),
    ensures
        spec_digits_value(s.take(k + 1)) == spec_digits_value(s.take(k)) * 10 + (s[k] as int - (
        '0' as int)),
{
    assert(s.take(k + 1).drop_last() =~= s.take(k));
    assert(s.take(k + 1).last() == s[k]);
}

proof fn lemma_digits_take_le(s: Seq<char>, k: int)
    requires
        spec_all_digits(s),
        0 <= k <= s.len(),
    ensures
        spec_digits_value(s.take(k)) <= spec_digits_value(s),
    decreases s.len() - k,
{
    if k == s.len() {
        assert(s.take(k) =~= s);
    } else {
        lemma_digits_take_step(s, k);
        assert(spec_all_digits(s.take(k)));
        lemma_digits_value_nonneg(s.take(k));
        lemma_digits_take_le(s, k + 1);
    }
}

/// Read a block-type id from its decimal text form; `None` when the text
/// does not denote a 32-bit id.
pub fn parse_block_id(s: &str) -> (r: Option<u32>)
    ensures
        r == spec_parse_u32(s@),
{
    let n = s.unicode_len();
    let mut start: usize = 0;
    if n > 0 && s.get_char(0) == '+' {
        start = 1;
    }
    let ghost t = if s@.len() > 0 && s@[0] == '+' {
        s@.skip(1)
    } else {
        s@
    };
    assert(t =~= s@.subrange(start as int, n as int));
    if n == start {
        return None;
    }
    let mut acc: u64 = 0;
    let mut i: usize = start;
    while i < n
        invariant
            start <= i <= n,
            n == s@.len(),
            start < n,
            t == (if s@.len() > 0 && s@[0] == '+' {
                s@.skip(1)
            } else {
                s@
            }),
            t =~= s@.subrange(start as int, n as int),
            spec_all_digits(s@.subrange(start as int, i as int)),
            acc == spec_digits_value(s@.subrange(start as int, i as int)),
            acc <= u32::MAX,
        decreases n - i,
    {
        let c = s.get_char(i);
        let cv = c as u32;
        assert(cv as int == c as int);
        if cv < '0' as u32 || cv > '9' as u32 {
            proof {
                assert(t[i - start] == s@[i as int]);
                assert(!spec_is_digit(t[i - start]));
                assert(!spec_all_digits(t));
            }
            return None;
        }
        let next: u64 = acc * 10 + (cv - '0' as u32) as u64;
        proof {
            assert(s@.subrange(start as int, i as int) =~= t.take(i - start));
            assert(s@.subrange(start as int, (i + 1) as int) =~= t.take(i - start + 1));
            assert(t[i - start] == s@[i as int]);
            lemma_digits_take_step(t, i - start);
        }
        if next > u32::MAX as u64 {
            proof {
                if spec_all_digits(t) {
                    lemma_digits_take_le(t, i - start + 1);
                }
            }
            return None;
        }
        acc = next;
        i += 1;
    }
    assert(s@.subrange(start as int, n as int) =~= t);
    Some(acc as u32)
}

/// Look up the first entry for `id` in an id-to-name table.
pub open spec fn spec_lookup_name(table: Seq<(u32, Seq<char>)>, id: u32) -> Option<Seq<char>>
    decreases table.len(),
{
    if table.len() == 0 {
        None
    } else if table[0].0 == id {
        Some(table[0].1)
    } else {
        spec_lookup_name(table.skip(1), id)
    }
}

/// Look up the first entry for `name` in a name-to-color table.
pub open spec fn spec_lookup_color(table: Seq<(Seq<char>, BlockColor)>, name: Seq<char>) -> Option<
    BlockColor,
>
    decreases table.len(),
{
    if table.len() == 0 {
        None
    } else if table[0].0 == name {
        Some(table[0].1)
    } else {
        spec_lookup_color(table.skip(1), name)
    }
}

proof fn lemma_lookup_name_step(table: Seq<(u32, Seq<char>)>, id: u32, i: int)
    requires
        0 <= i < table.len(),
        table[i].0 != id,
    ensures
        spec_lookup_name(table.skip(i), id) == spec_lookup_name(table.skip(i + 1), id),
{
    assert(table.skip(i).len() > 0);
    assert(table.skip(i)[0] == table[i]);
    assert(table.skip(i).skip(1) =~= table.skip(i + 1));
}

proof fn lemma_lookup_color_step(table: Seq<(Seq<char>, BlockColor)>, name: Seq<char>, i: int)
    requires
        0 <= i < table.len(),
        table[i].0 != name,
    ensures
        spec_lookup_color(table.skip(i), name) == spec_lookup_color(table.skip(i + 1), name),
{
    assert(table.skip(i).len() > 0);
    assert(table.skip(i)[0] == table[i]);
    assert(table.skip(i).skip(1) =~= table.skip(i + 1));
}

/// The id-to-name table read out of the parsed key configuration: entries
/// whose key reads as a decimal id, in file order; other entries are
/// dropped.
pub open spec fn spec_key_table(entries: Seq<(Seq<char>, Seq<char>)>) -> Seq<(u32, Seq<char>)>
    decreases entries.len(),
{
    if entries.len() == 0 {
        Seq::empty()
    } else {
        let rest = spec_key_table(entries.drop_last());
        match spec_parse_u32(entries.last().0) {
            Some(id) => rest.push((id, entries.last().1)),
            None => rest,
        }
    }
}

/// The color a configuration row denotes: missing components default to
/// full intensity.
pub open spec fn spec_row_color(comps: Seq<u32>) -> BlockColor {
    BlockColor {
        r: if comps.len() > 0 {
            comps[0]
        } else {
            COLOR_UNIT
        },
        g: if comps.len() > 1 {
            comps[1]
        } else {
            COLOR_UNIT
        },
        b: if comps.len() > 2 {
            comps[2]
        } else {
            COLOR_UNIT
        },
    }
}

/// The name-to-color table read out of the decoded color rows.
pub open spec fn spec_color_table(rows: Seq<(Seq<char>, Seq<u32>)>) -> Seq<(Seq<char>, BlockColor)>
    decreases rows.len(),
{
    if rows.len() == 0 {
        Seq::empty()
    } else {
        spec_color_table(rows.drop_last()).push(
            (rows.last().0, spec_row_color(rows.last().1)),
        )
    }
}

/// What `serde_json` reads out of a JSON object whose values are strings:
/// its entries in ascending key order, or nothing when the text is not such
/// an object.
pub uninterp spec fn json_object_entries(s: Seq<char>) -> Option<Seq<(Seq<char>, Seq<char>)>>;

/// Relies on serde_json::from_str deserializing into an ordered string map:
/// accepts exactly the JSON objects whose values are all strings, and the
/// result depends on the text alone.
#[verifier::external_body]
fn parse_string_object(s: &str) -> (r: Option<Vec<(String, String)>>)
    ensures
        match (r, json_object_entries(s@)) {
            (Some(v), Some(entries)) => v.deep_view() == entries,
            (None, None) => true,
            _ => false,
        },
{
    serde_json::from_str::<std::collections::BTreeMap<String, String>>(s).ok().map(
        |m| m.into_iter().collect(),
    )
}

/// Why registry construction failed; fatal at startup.
#[derive(Clone, Copy, Debug, PartialEq, Eq, Structural)]
pub enum ConfigError {
    /// The id-to-name configuration text is not a JSON object of strings.
    MalformedKeyTable,
}

/// The immutable block-type registry: id to display name, and display name
/// to color.
pub struct BlockTypeManager {
    pub block_key: Vec<(u32, String)>,
    pub block_colors: Vec<(String, BlockColor)>,
}

impl BlockTypeManager {
    /// The display name registered for `id`, if any.
    pub open spec fn spec_name_of(&self, id: u32) -> Option<Seq<char>> {
        spec_lookup_name(self.block_key.deep_view(), id)
    }

    /// The color registered for `id`: its name's entry in the color table,
    /// if both lookups succeed.
    pub open spec fn spec_color_of(&self, id: u32) -> Option<BlockColor> {
        match self.spec_name_of(id) {
            Some(name) => spec_lookup_color(self.block_colors.deep_view(), name),
            None => None,
        }
    }

    /// The RGBA color drawn for `id`: the registered color, or fallback
    /// magenta when the id or its color is absent.
    pub open spec fn spec_resolve_color(&self, id: u32) -> Seq<u32> {
        match self.spec_color_of(id) {
            Some(c) => spec_rgba(c),
            None => spec_fallback_color(),
        }
    }

    /// The display name used for `id`: the registered name, or "unknown".
    pub open spec fn spec_display_name(&self, id: u32) -> Seq<char> {
        match self.spec_name_of(id) {
            Some(name) => name,
            None => "unknown"@,
        }
    }

    /// Build the registry from the bundled id-to-name JSON text and the
    /// decoded color rows (per-mille components). Fails only when the key
    /// text is malformed; keys that do not read as decimal ids are dropped.
    pub fn new(key_json: &str, color_rows: Vec<(String, Vec<u32>)>) -> (r: Result<
        BlockTypeManager,
        ConfigError,
    >)
        ensures
            match json_object_entries(key_json@) {
                Some(entries) => r is Ok && r->Ok_0.block_key.deep_view() == spec_key_table(entries)
                    && r->Ok_0.block_colors.deep_view() == spec_color_table(color_rows.deep_view()),
                None => r == Err::<BlockTypeManager, ConfigError>(ConfigError::MalformedKeyTable),
            },
    {
        let entries = match parse_string_object(key_json) {
            Some(entries) => entries,
            None => {
                return Err(ConfigError::MalformedKeyTable);
            },
        };
        let ghost entries_view = json_object_entries(key_json@)->Some_0;
        let mut block_key: Vec<(u32, String)> = Vec::new();
        let mut i: usize = 0;
        while i < entries.len()
            invariant
                i <= entries@.len(),
                entries.deep_view() == entries_view,
                block_key.deep_view() == spec_key_table(entries_view.take(i as int)),
            decreases entries@.len() - i,
        {
            proof {
                assert(entries_view.take(i + 1).drop_last() =~= entries_view.take(i as int));
                assert(entries_view.take(i + 1).last() == entries_view[i as int]);
                assert(entries_view[i as int] == entries@[i as int].deep_view());
            }
            let id = parse_block_id(entries[i].0.as_str());
            match id {
                Some(id) => {
                    let name = entries[i].1.clone();
                    assert(name@ == entries@[i as int].1@);
                    block_key.push((id, name));
                    assert(block_key.deep_view() =~= spec_key_table(entries_view.take(i + 1)));
                },
                None => {
                    assert(block_key.deep_view() =~= spec_key_table(entries_view.take(i + 1)));
                },
            }
            i += 1;
        }
        assert(entries_view.take(entries@.len() as int) =~= entries_view);

        let ghost rows_view = color_rows.deep_view();
        let mut block_colors: Vec<(String, BlockColor)> = Vec::new();
        let mut j: usize = 0;
        while j < color_rows.len()
            invariant
                j <= color_rows@.len(),
                color_rows.deep_view() == rows_view,
                block_colors.deep_view() == spec_color_table(rows_view.take(j as int)),
            decreases color_rows@.len() - j,
        {
            let row = &color_rows[j];
            let color = BlockColor {
                r: if row.1.len() > 0 {
                    row.1[0]
                } else {
                    COLOR_UNIT
                },
                g: if row.1.len() > 1 {
                    row.1[1]
                } else {
                    COLOR_UNIT
                },
                b: if row.1.len() > 2 {
                    row.1[2]
                } else {
                    COLOR_UNIT
                },
            };
            let name = row.0.clone();
            assert(name@ == color_rows@[j as int].0@);
            block_colors.push((name, color));
            proof {
                assert(rows_view.take(j + 1).drop_last() =~= rows_view.take(j as int));
                assert(rows_view.take(j + 1).last() == rows_view[j as int]);
                assert(rows_view[j as int] == color_rows@[j as int].deep_view());
                assert(rows_view[j as int].1 =~= color_rows@[j as int].1@);
                assert(color == spec_row_color(rows_view[j as int].1));
                assert(block_colors.deep_view() =~= spec_color_table(rows_view.take(j + 1)));
            }
            j += 1;
        }
        assert(rows_view.take(color_rows@.len() as int) =~= rows_view);

        Ok(BlockTypeManager { block_key, block_colors })
    }

    /// The display name registered for `id`, if any.
    fn name_ref(&self, block_id: u32) -> (r: Option<&String>)
        ensures
            match self.spec_name_of(block_id) {
                Some(name) => r is Some && r->0@ == name,
                None => r is None,
            },
    {
        let ghost table = self.block_key.deep_view();
        assert(table.skip(0) =~= table);
        let mut i: usize = 0;
        while i < self.block_key.len()
            invariant
                i <= self.block_key@.len(),
                table == self.block_key.deep_view(),
                spec_lookup_name(table, block_id) == spec_lookup_name(
                    table.skip(i as int),
                    block_id,
                ),
            decreases self.block_key@.len() - i,
        {
            if self.block_key[i].0 == block_id {
                assert(table.skip(i as int)[0] == table[i as int]);
                return Some(&self.block_key[i].1);
            }
            proof {
                lemma_lookup_name_step(table, block_id, i as int);
            }
            i += 1;
        }
        assert(table.skip(self.block_key@.len() as int) =~= Seq::<(u32, Seq<char>)>::empty());
        None
    }

    /// The display name registered for `id`, if any.
    pub fn get_name(&self, block_id: u32) -> (r: Option<&str>)
        ensures
            match self.spec_name_of(block_id) {
                Some(name) => r is Some && r->0@ == name,
                None => r is None,
            },
    {
        match self.name_ref(block_id) {
            Some(name) => Some(name.as_str()),
            None => None,
        }
    }

    /// The registered RGBA color for `id`: requires both the id-to-name and
    /// the name-to-color lookup to succeed.
    pub fn get_color(&self, block_id: u32) -> (r: Option<[u32; 4]>)
        ensures
            match self.spec_color_of(block_id) {
                Some(c) => r is Some && r->0@ == spec_rgba(c),
                None => r is None,
            },
    {
        let name = match self.name_ref(block_id) {
            Some(name) => name,
            None => {
                return None;
            },
        };
        let ghost colors = self.block_colors.deep_view();
        assert(colors.skip(0) =~= colors);
        let mut i: usize = 0;
        while i < self.block_colors.len()
            invariant
                i <= self.block_colors@.len(),
                colors == self.block_colors.deep_view(),
                self.spec_name_of(block_id) is Some,
                name@ == self.spec_name_of(block_id)->Some_0,
                spec_lookup_color(colors, name@) == spec_lookup_color(colors.skip(i as int), name@),
            decreases self.block_colors@.len() - i,
        {
            if self.block_colors[i].0 == *name {
                proof {
                    assert(colors.skip(i as int)[0] == colors[i as int]);
                    assert(colors[i as int] == self.block_colors@[i as int].deep_view());
                    assert(colors[i as int].0 == self.block_colors@[i as int].0@);
                    assert(spec_lookup_color(colors.skip(i as int), name@) == Some(
                        colors[i as int].1,
                    ));
                }
                return Some(self.block_colors[i].1.to_rgba());
            }
            proof {
                lemma_lookup_color_step(colors, name@, i as int);
            }
            i += 1;
        }
        assert(colors.skip(self.block_colors@.len() as int) =~= Seq::<
            (Seq<char>, BlockColor),
        >::empty());
        None
    }

    /// The color drawn for `id`: the registered color, or fallback magenta
    /// when the id or its color is absent. Never fails.
    pub fn resolve_color(&self, block_id: u32) -> (r: [u32; 4])
        ensures
            r@ == self.spec_resolve_color(block_id),
    {
        match self.get_color(block_id) {
            Some(c) => c,
            None => {
                let r = [COLOR_UNIT, 0u32, COLOR_UNIT, COLOR_UNIT];
                assert(r@ =~= spec_fallback_color());
                r
            },
        }
    }

    /// The display name used for `id`: the registered name, or "unknown".
    pub fn display_name(&self, block_id: u32) -> (r: String)
        ensures
            r@ == self.spec_display_name(block_id),
    {
        match self.get_name(block_id) {
            Some(name) => name.to_owned(),
            None => "unknown".to_owned(),
        }
    }
}

} // verus!
