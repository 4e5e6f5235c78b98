//! The template catalog: the deduplicated font store, the template record
//! built from one configuration entry, and the lookups that pick a template
//! for a trigger.
//!
//! Load order is kept everywhere, because it is the tie-break: the first
//! template with a matching command wins a lookup, and the first one flagged
//! as default wins the fallback.

use vstd::prelude::*;

use crate::bitmap::Bitmap;
use crate::config::RawEntry;
use crate::font::font_decodable;
use crate::font::font_from_bytes;
use crate::text::str_eq;
use crate::text::trim_spec;
use crate::text::trim_str;

verus! {

/// Decoded fonts keyed by the path they were loaded from, in load order.
/// Each path is stored at most once.
pub struct FontCache {
    pub entries: Vec<(String, rusttype::Font<'static>)>,
}

impl FontCache {
    /// The stored paths, in load order.
    pub open spec fn names(&self) -> Seq<Seq<char>> {
        Seq::new(self.entries@.len(), |i: int| self.entries@[i].0@)
    }

    /// Paths are unique: a font is decoded at most once per path.
    pub open spec fn wf(&self) -> bool {
        forall|i: int, j: int|
            0 <= i < j < self.names().len() ==> self.names()[i] != self.names()[j]
    }

    pub fn new() -> (r: FontCache)
        ensures
            r.names().len() == 0,
            r.wf(),
    {
        FontCache { entries: Vec::new() }
    }

    pub fn len(&self) -> (n: usize)
        ensures
            n == self.names().len(),
    {
        self.entries.len()
    }

    /// Whether a font was already loaded from this path.
    pub fn has_font(&self, name: &str) -> (r: bool)
        ensures
            r == self.names().contains(name@),
    {
        let mut k: usize = 0;
        while k < self.entries.len()
            invariant
                0 <= k <= self.names().len(),
                forall|t: int| 0 <= t < k ==> self.names()[t] != name@,
            decreases self.names().len() - k,
        {
            if str_eq(self.entries[k].0.as_str(), name) {
                assert(self.names()[k as int] == name@);
                return true;
            }
            k = k + 1;
        }
        assert(!self.names().contains(name@));
        false
    }

    /// Decodes a font from the bytes read at `name` and stores it under
    /// that path: it succeeds exactly when the bytes decode as a font (data
    /// shorter than the four bytes the decoder reads unconditionally is
    /// refused up front, never handed to it). Nothing is stored on failure;
    /// the message is handed back and the caller logs it and carries on.
    pub fn load_font(&mut self, name: String, bytes: Vec<u8>) -> (r: Result<(), String>)
        requires
            !old(self).names().contains(name@),
            old(self).wf(),
        ensures
            final (self).wf(),
            r is Ok <==> bytes@.len() >= 4 && font_decodable(bytes@),
            r is Ok ==> final (self).names() == old(self).names().push(name@),
            r is Err ==> *final (self) == *old(self),
    {
        if bytes.len() < 4 {
            return Err("the font data is too short to decode".to_owned());
        }
        match font_from_bytes(bytes) {
            Ok(f) => {
                let ghost before = self.names();
                self.entries.push((name, f));
                proof {
                    assert(self.names() =~= before.push(name@));
                    assert forall|i: int, j: int|
                        0 <= i < j < self.names().len() implies self.names()[i]
                        != self.names()[j] by {
                        if j == self.names().len() - 1 {
                            assert(before[i] != name@);
                        }
                    }
                }
                Ok(())
            },
            Err(m) => Err(m),
        }
    }

    /// The index of the first font stored under `name`, from position `k`.
    pub open spec fn first_name_index(names: Seq<Seq<char>>, name: Seq<char>, k: int) -> Option<
        int,
    >
        decreases names.len() - k,
    {
        if 0 <= k < names.len() {
            if names[k] == name {
                Some(k)
            } else {
                Self::first_name_index(names, name, k + 1)
            }
        } else {
            None
        }
    }

    /// Which font a template renders with: the one stored under `name`, or
    /// the first loaded one when that path is missing (the degraded
    /// fallback), or none when nothing is loaded.
    pub open spec fn font_choice(names: Seq<Seq<char>>, name: Seq<char>) -> Option<int> {
        match Self::first_name_index(names, name, 0) {
            Some(i) => Some(i),
            None => if names.len() > 0 {
                Some(0)
            } else {
                None
            },
        }
    }

    /// Picks the font for a template, as `font_choice` says.
    pub fn pick_font(&self, name: &str) -> (r: Option<usize>)
        ensures
            r is Some <==> Self::font_choice(self.names(), name@) is Some,
            r is Some ==> Self::font_choice(self.names(), name@) == Some(r->0 as int),
            r is Some ==> (r->0 as int) < self.names().len(),
    {
        let mut k: usize = 0;
        while k < self.entries.len()
            invariant
                0 <= k <= self.names().len(),
                Self::first_name_index(self.names(), name@, 0) == Self::first_name_index(
                    self.names(),
                    name@,
                    k as int,
                ),
            decreases self.names().len() - k,
        {
            if str_eq(self.entries[k].0.as_str(), name) {
                return Some(k);
            }
            k = k + 1;
        }
        if self.entries.len() > 0 {
            Some(0)
        } else {
            None
        }
    }

    /// The font at a picked index: the one stored there.
    pub fn get_font(&self, idx: usize) -> (f: &rusttype::Font<'static>)
        requires
            idx < self.names().len(),
        ensures
            *f == self.entries@[idx as int].1,
    {
        &self.entries[idx].1
    }

    /// The path of the most recently loaded font, trimmed: the degraded
    /// fallback for an entry that names no font.
    pub fn newest_name_trimmed(&self) -> (r: String)
        requires
            self.names().len() > 0,
        ensures
            r@ == trim_spec(self.names().last()),
    {
        trim_str(self.entries[self.entries.len() - 1].0.as_str())
    }
}

/// One meme template: its image, its font reference and size, the drawing
/// region with its derived center, the text decoration, the command binding
/// and the default flag.
pub struct Meme {
    pub image: Bitmap,
    pub font: String,
    pub font_size: u32,
    pub left: u32,
    pub top: u32,
    pub right: u32,
    pub bottom: u32,
    pub center_x: u32,
    pub center_y: u32,
    pub text_prefix: String,
    pub text_suffix: String,
    pub command: String,
    pub is_default: bool,
}

/// The loaded catalog: the font store and the templates, in load order.
pub struct Catalog {
    pub fonts: FontCache,
    pub memes: Vec<Meme>,
}

/// What to do with one parsed entry before its image file is read: skip it,
/// or read `image_file` and bind the named font. `font_fallback` says the
/// entry named no font and the most recently loaded one was substituted,
/// which the caller logs.
pub enum EntryPlan {
    /// The entry names no image file; it is skipped with a warning.
    SkipNoFilename,
    /// The entry names no font and none is loaded yet; it is skipped with a
    /// warning.
    SkipNoFont,
    Load { image_file: String, font_name: String, font_fallback: bool },
}

/// Decides what to do with one parsed entry, before any file is read: no
/// filename or no reachable font skips the entry; otherwise the image path
/// is the trimmed filename, and the font is the named one, or the most
/// recently loaded one (trimmed) as the fallback.
pub fn entry_plan(raw: &RawEntry, fonts: &FontCache) -> (r: EntryPlan)
    ensures
        raw.filename is None ==> r is SkipNoFilename,
        raw.filename is Some && raw.font is None && fonts.names().len() == 0 ==> r is SkipNoFont,
        raw.filename is Some && raw.font is Some ==> (r matches EntryPlan::Load {
            image_file,
            font_name,
            font_fallback,
        } && image_file@ == trim_spec(raw.filename->0@) && font_name@ == raw.font->0@
            && !font_fallback),
        raw.filename is Some && raw.font is None && fonts.names().len() > 0 ==> (r
            matches EntryPlan::Load { image_file, font_name, font_fallback } && image_file@
            == trim_spec(raw.filename->0@) && font_name@ == trim_spec(fonts.names().last())
            && font_fallback),
{
    let filename = match &raw.filename {
        None => {
            return EntryPlan::SkipNoFilename;
        },
        Some(f) => f,
    };
    match &raw.font {
        Some(f) => EntryPlan::Load {
            image_file: trim_str(filename.as_str()),
            font_name: f.clone(),
            font_fallback: false,
        },
        None => {
            if fonts.len() == 0 {
                EntryPlan::SkipNoFont
            } else {
                EntryPlan::Load {
                    image_file: trim_str(filename.as_str()),
                    font_name: fonts.newest_name_trimmed(),
                    font_fallback: true,
                }
            }
        },
    }
}

/// The midpoint of two bounds, computed the way the loader does: their sum
/// taken modulo 2^32 (the wrap of `u32` addition), halved with floor
/// division.
pub open spec fn midpoint(a: u32, b: u32) -> u32 {
    (((a + b) % 0x1_0000_0000) / 2) as u32
}

/// Builds the template from a parsed entry, its decoded image and its bound
/// font path. Absent fields take their defaults: font size 12, the image's
/// own bounds as the region, empty decoration, the no-command sentinel
/// `_default`, and not being the default template. The center is derived
/// from the region, never set on its own.
pub fn make_meme(raw: RawEntry, image: Bitmap, font_name: String) -> (m: Meme)
    ensures
        m.image == image,
        m.font == font_name,
        m.font_size == (if raw.font_size is Some {
            raw.font_size->0
        } else {
            12u32
        }),
        m.left == (if raw.left is Some {
            raw.left->0
        } else {
            0u32
        }),
        m.top == (if raw.top is Some {
            raw.top->0
        } else {
            0u32
        }),
        m.right == (if raw.right is Some {
            raw.right->0
        } else {
            image.width
        }),
        m.bottom == (if raw.bottom is Some {
            raw.bottom->0
        } else {
            image.height
        }),
        m.center_x == midpoint(m.left, m.right),
        m.center_y == midpoint(m.top, m.bottom),
        m.text_prefix@ == (if raw.text_prefix is Some {
            raw.text_prefix->0@
        } else {
            Seq::<char>::empty()
        }),
        m.text_suffix@ == (if raw.text_suffix is Some {
            raw.text_suffix->0@
        } else {
            Seq::<char>::empty()
        }),
        m.command@ == (if raw.command is Some {
            raw.command->0@
        } else {
            "_default"@
        }),
        m.is_default == (raw.is_default is Some && raw.is_default->0),
{
    let font_size = match raw.font_size {
        Some(v) => v,
        None => 12,
    };
    let left = match raw.left {
        Some(v) => v,
        None => 0,
    };
    let top = match raw.top {
        Some(v) => v,
        None => 0,
    };
    let right = match raw.right {
        Some(v) => v,
        None => image.width,
    };
    let bottom = match raw.bottom {
        Some(v) => v,
        None => image.height,
    };
    let center_x = mid(left, right);
    let center_y = mid(top, bottom);
    let text_prefix = match raw.text_prefix {
        Some(s) => s,
        None => String::new(),
    };
    let text_suffix = match raw.text_suffix {
        Some(s) => s,
        None => String::new(),
    };
    let command = match raw.command {
        Some(s) => s,
        None => "_default".to_owned(),
    };
    let is_default = match raw.is_default {
        Some(b) => b,
        None => false,
    };
    Meme {
        image,
        font: font_name,
        font_size,
        left,
        top,
        right,
        bottom,
        center_x,
        center_y,
        text_prefix,
        text_suffix,
        command,
        is_default,
    }
}

/// The midpoint, as `midpoint` defines it.
fn mid(a: u32, b: u32) -> (r: u32)
    ensures
        r == midpoint(a, b),
{
    let sum: u64 = a as u64 + b as u64;
    ((sum % 0x1_0000_0000) / 2) as u32
}

/// The index of the first template, in load order, whose command is
/// `trigger`, from position `k`.
pub open spec fn find_command_spec(memes: Seq<Meme>, trigger: Seq<char>, k: int) -> Option<int>
    decreases memes.len() - k,
{
    if 0 <= k < memes.len() {
        if memes[k].command@ == trigger {
            Some(k)
        } else {
            find_command_spec(memes, trigger, k + 1)
        }
    } else {
        None
    }
}

/// The index of the first template, in load order, flagged as the default,
/// from position `k`.
pub open spec fn find_default_spec(memes: Seq<Meme>, k: int) -> Option<int>
    decreases memes.len() - k,
{
    if 0 <= k < memes.len() {
        if memes[k].is_default {
            Some(k)
        } else {
            find_default_spec(memes, k + 1)
        }
    } else {
        None
    }
}

/// The first template bound to this trigger, in load order: earlier entries
/// shadow later ones.
pub fn find_by_command(memes: &Vec<Meme>, trigger: &str) -> (r: Option<usize>)
    ensures
        r is Some <==> find_command_spec(memes@, trigger@, 0) is Some,
        r is Some ==> find_command_spec(memes@, trigger@, 0) == Some(r->0 as int),
        r is Some ==> (r->0 as int) < memes@.len(),
{
    let mut k: usize = 0;
    while k < memes.len()
        invariant
            0 <= k <= memes@.len(),
            find_command_spec(memes@, trigger@, 0) == find_command_spec(memes@, trigger@, k as int),
        decreases memes@.len() - k,
    {
        if str_eq(memes[k].command.as_str(), trigger) {
            return Some(k);
        }
        k = k + 1;
    }
    None
}

/// The first template flagged as the default, in load order.
pub fn find_default(memes: &Vec<Meme>) -> (r: Option<usize>)
    ensures
        r is Some <==> find_default_spec(memes@, 0) is Some,
        r is Some ==> find_default_spec(memes@, 0) == Some(r->0 as int),
        r is Some ==> (r->0 as int) < memes@.len(),
{
    let mut k: usize = 0;
    while k < memes.len()
        invariant
            0 <= k <= memes@.len(),
            find_default_spec(memes@, 0) == find_default_spec(memes@, k as int),
        decreases memes@.len() - k,
    {
        if memes[k].is_default {
            return Some(k);
        }
        k = k + 1;
    }
    None
}

/// A lookup lands on the first matching template and on nothing before it:
/// when two entries share a command, the earlier one wins, and the same for
/// the default flag.
pub proof fn lemma_lookup_takes_first(memes: Seq<Meme>, trigger: Seq<char>, k: int)
    requires
        0 <= k,
    ensures
        find_command_spec(memes, trigger, k) matches Some(i) ==> k <= i < memes.len()
            && memes[i].command@ == trigger && (forall|j: int|
            k <= j < i ==> memes[j].command@ != trigger),
        find_default_spec(memes, k) matches Some(i) ==> k <= i < memes.len()
            && memes[i].is_default && (forall|j: int| k <= j < i ==> !memes[j].is_default),
    decreases memes.len() - k,
{
    if k < memes.len() {
        lemma_lookup_takes_first(memes, trigger, k + 1);
    }
}

} // verus!
