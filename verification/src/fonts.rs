//! The font registry: fonts are registered under a name and found again by
//! name or by id, with one of them as the default. Shaping and measuring
//! text is the host's work; the registry only says which font is meant.

use vstd::prelude::*;

verus! {

/// The id of a registered font: its position in the order of registration.
#[derive(Debug, Clone, Copy, PartialEq, Eq, Hash, Structural)]
pub struct FontId(pub usize);

/// What was registered for a font.
pub struct FontEntry {
    /// The family name that the host's text shaper looks up.
    pub family: String,
    /// The font size in layout units.
    pub size: i32,
}

/// The registered fonts.
pub struct Fonts {
    entries: Vec<FontEntry>,
    names: Vec<String>,
    default: Option<FontId>,
}

/// Handed out by `Fonts::add`, so that the font just registered can be made
/// the default in the same expression.
pub struct FontBuilder<'a> {
    pub fonts: &'a mut Fonts,
    pub id: FontId,
}

/// The first position at which `name` stands among the first `upto` entries
/// of `names`, if it stands there at all.
pub open spec fn first_named(names: Seq<Seq<char>>, name: Seq<char>, upto: int) -> Option<int>
    decreases upto,
{
    if upto <= 0 || upto > names.len() {
        None
    } else {
        match first_named(names, name, upto - 1) {
            Some(i) => Some(i),
            None => if names[upto - 1] == name {
                Some(upto - 1)
            } else {
                None
            },
        }
    }
}

/// The font registered under `name`, if there is one.
pub open spec fn lookup(names: Seq<Seq<char>>, name: Seq<char>) -> Option<FontId> {
    match first_named(names, name, names.len() as int) {
        Some(i) => Some(FontId(i as usize)),
        None => None,
    }
}

/// A name found among the first entries stays found, at the same place,
/// when more entries are searched.
proof fn lemma_first_named_stable(names: Seq<Seq<char>>, name: Seq<char>, found: int, upto: int)
    requires
        0 <= found < upto <= names.len(),
        first_named(names, name, found + 1) == Some(found),
    ensures
        first_named(names, name, upto) == Some(found),
    decreases upto,
{
    if upto > found + 1 {
        lemma_first_named_stable(names, name, found, upto - 1);
    }
}

/// What a measurement depends on: the font, the text and the size. Where
/// the text is drawn is no part of it.
pub struct MeasureKey {
    pub font: FontId,
    pub text: String,
    pub size: i32,
}

/// The mathematical value of a `MeasureKey`.
pub struct MeasureKeyView {
    pub font: FontId,
    pub text: Seq<char>,
    pub size: i32,
}

impl View for MeasureKey {
    type V = MeasureKeyView;

    open spec fn view(&self) -> MeasureKeyView {
        MeasureKeyView { font: self.font, text: self.text@, size: self.size }
    }
}

/// One remembered measurement.
pub struct Measured {
    pub key: MeasureKey,
    pub width: i32,
    pub height: i32,
}

/// The bounds of shaped texts, remembered by font, text and size, so that
/// a text is shaped once and not every frame.
pub struct MeasureCache {
    entries: Vec<Measured>,
}

/// What is remembered for `key` among the first `upto` entries: the bounds of
/// the first entry with that key.
pub open spec fn remembered(entries: Seq<Measured>, key: MeasureKeyView, upto: int) -> Option<(i32, i32)>
    decreases upto,
{
    if upto <= 0 || upto > entries.len() {
        None
    } else {
        match remembered(entries, key, upto - 1) {
            Some(v) => Some(v),
            None => if entries[upto - 1].key@ == key {
                Some((entries[upto - 1].width, entries[upto - 1].height))
            } else {
                None
            },
        }
    }
}

/// Something found among the first entries stays found when more entries
/// are searched.
proof fn lemma_remembered_stable(entries: Seq<Measured>, key: MeasureKeyView, found: int, upto: int)
    requires
        0 <= found <= upto <= entries.len(),
        remembered(entries, key, found) is Some,
    ensures
        remembered(entries, key, upto) == remembered(entries, key, found),
    decreases upto,
{
    if upto > found {
        lemma_remembered_stable(entries, key, found, upto - 1);
    }
}

/// Entries that agree, one by one, on whether they have the key and on
/// their bounds remember the same for the key.
proof fn lemma_remembered_same(a: Seq<Measured>, b: Seq<Measured>, key: MeasureKeyView, upto: int)
    requires
        0 <= upto <= a.len(),
        upto <= b.len(),
        forall|i: int|
            0 <= i < upto ==> (a[i].key@ == key <==> b[i].key@ == key) && (a[i].key@ == key ==> a[i].width
                == b[i].width && a[i].height == b[i].height),
    ensures
        remembered(a, key, upto) == remembered(b, key, upto),
    decreases upto,
{
    if upto > 0 {
        lemma_remembered_same(a, b, key, upto - 1);
    }
}

impl MeasureCache {
    /// What the cache remembers for a key.
    pub closed spec fn get_spec(&self, key: MeasureKeyView) -> Option<(i32, i32)> {
        remembered(self.entries@, key, self.entries@.len() as int)
    }

    /// A cache that remembers nothing.
    pub fn new() -> (c: Self)
        ensures
            forall|k: MeasureKeyView| c.get_spec(k) is None,
    {
        MeasureCache { entries: Vec::new() }
    }

    fn find(&self, font: FontId, text: &String, size: i32) -> (r: Option<usize>)
        ensures
            match r {
                Some(i) => {
                    &&& i < self.entries@.len()
                    &&& self.entries@[i as int].key@ == (MeasureKeyView { font, text: text@, size })
                    &&& remembered(
                        self.entries@,
                        MeasureKeyView { font, text: text@, size },
                        i as int,
                    ) is None
                },
                None => remembered(
                    self.entries@,
                    MeasureKeyView { font, text: text@, size },
                    self.entries@.len() as int,
                ) is None,
            },
    {
        let mut i: usize = 0;
        while i < self.entries.len()
            invariant
                i <= self.entries@.len(),
                remembered(
                    self.entries@,
                    MeasureKeyView { font, text: text@, size },
                    i as int,
                ) is None,
            decreases self.entries@.len() - i,
        {
            let e = &self.entries[i];
            if e.key.font.0 == font.0 && e.key.size == size && e.key.text == *text {
                return Some(i);
            }
            i += 1;
        }
        None
    }

    /// The bounds remembered for a text in a font at a size, if any.
    pub fn get(&self, font: FontId, text: &str, size: i32) -> (r: Option<(i32, i32)>)
        ensures
            r == self.get_spec(MeasureKeyView { font, text: text@, size }),
    {
        let wanted: String = text.to_owned();
        match self.find(font, &wanted, size) {
            Some(i) => {
                proof {
                    let key = MeasureKeyView { font, text: text@, size };
                    assert(remembered(self.entries@, key, i + 1) is Some);
                    lemma_remembered_stable(self.entries@, key, i + 1, self.entries@.len() as int);
                }
                Some((self.entries[i].width, self.entries[i].height))
            },
            None => None,
        }
    }

    /// Remembers the bounds of a text in a font at a size. What was
    /// remembered for that key before is replaced; every other key keeps
    /// what it had.
    pub fn insert(&mut self, font: FontId, text: &str, size: i32, width: i32, height: i32)
        ensures
            forall|k: MeasureKeyView|
                #[trigger] final(self).get_spec(k) == if k == (MeasureKeyView { font, text: text@, size }) {
                    Some((width, height))
                } else {
                    old(self).get_spec(k)
                },
    {
        let wanted: String = text.to_owned();
        let ghost key = MeasureKeyView { font, text: text@, size };
        let ghost before = self.entries@;
        match self.find(font, &wanted, size) {
            Some(i) => {
                self.entries[i].width = width;
                self.entries[i].height = height;
                let ghost after = self.entries@;
                assert forall|k: MeasureKeyView| #[trigger]
                    self.get_spec(k) == if k == key {
                        Some((width, height))
                    } else {
                        remembered(before, k, before.len() as int)
                    } by {
                    if k == key {
                        lemma_remembered_same(before, after, k, i as int);
                        assert(remembered(after, k, i + 1) == Some((width, height)));
                        lemma_remembered_stable(after, k, i + 1, after.len() as int);
                    } else {
                        lemma_remembered_same(before, after, k, before.len() as int);
                    }
                }
            },
            None => {
                self.entries.push(Measured { key: MeasureKey { font, text: wanted, size }, width, height });
                let ghost after = self.entries@;
                assert forall|k: MeasureKeyView| #[trigger]
                    self.get_spec(k) == if k == key {
                        Some((width, height))
                    } else {
                        remembered(before, k, before.len() as int)
                    } by {
                    lemma_remembered_same(before, after, k, before.len() as int);
                }
            },
        }
    }

    /// Forgets everything.
    pub fn clear(&mut self)
        ensures
            forall|k: MeasureKeyView| final(self).get_spec(k) is None,
    {
        self.entries.clear();
    }
}

impl Fonts {
    /// What every registry holds: one name per font, and a default that is
    /// registered.
    pub closed spec fn wf(&self) -> bool {
        &&& self.names@.len() == self.entries@.len()
        &&& match self.default {
            Some(id) => id.0 < self.entries@.len(),
            None => true,
        }
    }

    /// The names under which fonts were registered, in that order. The font
    /// at position `i` has the id `FontId(i)`.
    pub closed spec fn names(&self) -> Seq<Seq<char>> {
        Seq::new(self.names@.len(), |i: int| self.names@[i]@)
    }

    /// The number of registered fonts.
    pub closed spec fn count(&self) -> nat {
        self.entries@.len()
    }

    /// The entry of the font with the given position.
    pub closed spec fn entry(&self, i: int) -> FontEntry {
        self.entries@[i]
    }

    /// The default font, once one was chosen.
    pub closed spec fn default_font(&self) -> Option<FontId> {
        self.default
    }

    /// An empty registry, with no default font.
    pub fn new() -> (f: Self)
        ensures
            f.wf(),
            f.count() == 0,
            f.names() == Seq::<Seq<char>>::empty(),
            f.default_font() is None,
    {
        let f = Fonts { entries: Vec::new(), names: Vec::new(), default: None };
        assert(f.names() =~= Seq::<Seq<char>>::empty());
        f
    }

    /// Registers a font under `name`, unless the name is taken: then the
    /// font that has it is handed back and nothing changes.
    pub fn add(&mut self, name: &str, family: &str, size: i32) -> (b: FontBuilder<'_>)
        requires
            old(self).wf(),
        ensures
            b.fonts.wf(),
            b.fonts.names().len() == b.fonts.count(),
            b.fonts.default_font() == old(self).default_font(),
            b.id.0 < b.fonts.count(),
            match lookup(old(self).names(), name@) {
                Some(id) => {
                    &&& b.id == id
                    &&& b.fonts.names() == old(self).names()
                    &&& b.fonts.count() == old(self).count()
                    &&& forall|i: int| 0 <= i < old(self).count() ==> b.fonts.entry(i) == old(self).entry(i)
                },
                None => {
                    &&& b.id.0 == old(self).count()
                    &&& b.fonts.names() == old(self).names().push(name@)
                    &&& b.fonts.count() == old(self).count() + 1
                    &&& forall|i: int| 0 <= i < old(self).count() ==> b.fonts.entry(i) == old(self).entry(i)
                    &&& b.fonts.entry(old(self).count() as int).family@ == family@
                    &&& b.fonts.entry(old(self).count() as int).size == size
                },
            },
            *final(self) == *final(b.fonts),
    {
        let ghost before = *self;
        let id = match self.get_by_name(name) {
            Some(existing) => existing,
            None => {
                let id = FontId(self.entries.len());
                self.entries.push(FontEntry { family: family.to_owned(), size });
                self.names.push(name.to_owned());
                assert(self.names() =~= before.names().push(name@));
                id
            },
        };
        FontBuilder { fonts: self, id }
    }

    /// The number of registered fonts.
    pub fn len(&self) -> (n: usize)
        requires
            self.wf(),
        ensures
            n == self.count(),
    {
        self.entries.len()
    }

    /// The entry of a registered font.
    pub fn get(&self, id: FontId) -> (e: &FontEntry)
        requires
            id.0 < self.count(),
        ensures
            *e == self.entry(id.0 as int),
    {
        &self.entries[id.0]
    }

    /// The font registered under `name`.
    pub fn get_by_name(&self, name: &str) -> (r: Option<FontId>)
        requires
            self.wf(),
        ensures
            r == lookup(self.names(), name@),
            match r {
                Some(id) => id.0 < self.count(),
                None => true,
            },
    {
        let wanted: String = name.to_owned();
        let mut i: usize = 0;
        while i < self.names.len()
            invariant
                wanted@ == name@,
                i <= self.names@.len(),
                self.names@.len() == self.entries@.len(),
                first_named(self.names(), name@, i as int) is None,
            decreases self.names@.len() - i,
        {
            let found = self.names[i] == wanted;
            assert(self.names()[i as int] == self.names@[i as int]@);
            if found {
                proof {
                    lemma_first_named_stable(self.names(), name@, i as int, self.names().len() as int);
                }
                return Some(FontId(i));
            }
            i += 1;
        }
        None
    }

    /// The default font, once one was chosen.
    pub fn default_id(&self) -> (r: Option<FontId>)
        requires
            self.wf(),
        ensures
            r == self.default_font(),
            match r {
                Some(id) => id.0 < self.count(),
                None => true,
            },
    {
        self.default
    }

    /// The font that a name stands for: the one registered under it, else
    /// the default. Without a name it is the default. `None` only where no
    /// default was ever chosen.
    pub fn resolve(&self, name: Option<&str>) -> (r: Option<FontId>)
        requires
            self.wf(),
        ensures
            r == match name {
                Some(n) => match lookup(self.names(), n@) {
                    Some(id) => Some(id),
                    None => self.default_font(),
                },
                None => self.default_font(),
            },
            match r {
                Some(id) => id.0 < self.count(),
                None => true,
            },
    {
        match name {
            Some(n) => match self.get_by_name(n) {
                Some(id) => Some(id),
                None => self.default,
            },
            None => self.default,
        }
    }
    /// The font that an id stands for: the id itself where it is registered,
    /// else the default. Without an id it is the default. `None` only where
    /// the default is needed and none was ever chosen.
    pub fn resolve_id(&self, id: Option<FontId>) -> (r: Option<FontId>)
        requires
            self.wf(),
        ensures
            r == match id {
                Some(i) => if i.0 < self.count() {
                    Some(i)
                } else {
                    self.default_font()
                },
                None => self.default_font(),
            },
            match r {
                Some(i) => i.0 < self.count(),
                None => true,
            },
    {
        match id {
            Some(i) => if i.0 < self.entries.len() {
                Some(i)
            } else {
                self.default
            },
            None => self.default,
        }
    }
}

impl<'a> FontBuilder<'a> {
    /// Makes the font the default one and hands back its id.
    pub fn default(self) -> (id: FontId)
        requires
            old(self.fonts).wf(),
            self.id.0 < old(self.fonts).count(),
        ensures
            id == self.id,
            final(self.fonts).wf(),
            final(self.fonts).default_font() == Some(self.id),
            final(self.fonts).names() == old(self.fonts).names(),
            final(self.fonts).count() == old(self.fonts).count(),
            forall|i: int| 0 <= i < old(self.fonts).count() ==> final(self.fonts).entry(i) == old(
                self.fonts,
            ).entry(i),
    {
        self.fonts.default = Some(self.id);
        self.id
    }
}

} // verus!
