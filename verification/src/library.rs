//! Managing the preset library: names, and deleting, renaming, exporting, importing, and
//! resetting presets. Every operation either succeeds as a whole or leaves the config as it
//! was.

use vstd::prelude::*;
use vstd::string::*;
use vstd::utf8::*;
use crate::config::{
    default_config, outcome, preset_fault, runnable_equals_itself, shipped, shipped_presets,
    shipped_presets_run, validate_preset, Config, ConfigView,
};
use crate::dsp::Band;
use crate::error::{about, plain, EqError, ErrorView, Fault};
use crate::number::Single;
use crate::preset::{
    copy_bands, is_listing, listing, listing_exists, listing_is_unique, Contents, Preset, PresetView, Presets,
};
use crate::text::{is_white, name_before, parts_at, same_text, texts, white};

verus! {

/// The longest preset name, in bytes.
pub const MAX_PRESET_NAME_LEN: usize = 64;

/// A preset's save-aside copy during a reset.
#[derive(Debug)]
pub struct PresetBackup {
    pub source: String,
    pub dest: String,
}

/// What a [`PresetBackup`] holds.
pub ghost struct BackupView {
    pub source: Seq<char>,
    pub dest: Seq<char>,
}

impl View for PresetBackup {
    type V = BackupView;

    open spec fn view(&self) -> BackupView {
        BackupView { source: self.source@, dest: self.dest@ }
    }
}

/// What the backups hold, one by one.
pub open spec fn backups_of(v: Seq<PresetBackup>) -> Seq<BackupView> {
    Seq::new(v.len(), |i: int| v[i]@)
}

/// A single preset in a file of its own, for sharing.
#[derive(Debug)]
pub struct PresetFile {
    pub name: String,
    pub bands: Vec<Band>,
    pub preamp_db: Single,
}

/// What a [`PresetFile`] holds.
pub ghost struct FileView {
    pub name: Seq<char>,
    pub preset: PresetView,
}

impl View for PresetFile {
    type V = FileView;

    open spec fn view(&self) -> FileView {
        FileView {
            name: self.name@,
            preset: PresetView { bands: self.bands@, preamp_db: self.preamp_db },
        }
    }
}

impl PresetFile {
    /// The preset in the file.
    pub fn preset(&self) -> (p: Preset)
        ensures
            p@ == self@.preset,
    {
        Preset { bands: copy_bands(&self.bands), preamp_db: self.preamp_db }
    }
}

// --- names -----------------------------------------------------------------------

/// Characters that a preset name may hold.
pub open spec fn permitted(c: char) -> bool {
    'a' <= c <= 'z' || 'A' <= c <= 'Z' || '0' <= c <= '9' || c == '-' || c == '_' || c == '.'
}

/// What is wrong with a preset name.
pub open spec fn name_fault(name: Seq<char>) -> Option<Fault> {
    if name.len() == 0 {
        Some(Fault::NameEmpty)
    } else if encode_utf8(name).len() > MAX_PRESET_NAME_LEN {
        Some(Fault::NameTooLong)
    } else if white(name[0]) || white(name.last()) {
        Some(Fault::NameSpace)
    } else if exists|i: int| 0 <= i < name.len() && !permitted(#[trigger] name[i]) {
        Some(Fault::NameCharset)
    } else {
        None
    }
}

/// A new preset may have this name: it is well formed, and no preset of `m` has it.
pub open spec fn new_name(m: Contents, name: Seq<char>) -> Result<(), ErrorView> {
    match name_fault(name) {
        Some(f) => Err(plain(f)),
        None => if m.contains_key(name) {
            Err(about(Fault::PresetExists, name))
        } else {
            Ok(())
        },
    }
}

/// A session may be saved under this name: a new one, a shipped one (a deliberate overwrite),
/// or the active preset's own. Only the names of other custom presets are refused.
pub open spec fn save_name(m: Contents, active: Seq<char>, name: Seq<char>) -> Result<
    (),
    ErrorView,
> {
    match name_fault(name) {
        Some(f) => Err(plain(f)),
        None => if m.contains_key(name) && !shipped().contains_key(name) && name != active {
            Err(about(Fault::PresetExists, name))
        } else {
            Ok(())
        },
    }
}

fn is_permitted(c: char) -> (r: bool)
    ensures
        r == permitted(c),
{
    ('a' <= c && c <= 'z') || ('A' <= c && c <= 'Z') || ('0' <= c && c <= '9') || c == '-' || c
        == '_' || c == '.'
}

/// Check that a preset name is well formed.
pub fn validate_preset_name(name: &str) -> (r: Result<(), EqError>)
    ensures
        outcome(r) == match name_fault(name@) {
            Some(f) => Err(plain(f)),
            None => Ok::<(), ErrorView>(()),
        },
{
    let n: usize = name.unicode_len();
    if n == 0 {
        return Err(EqError::plain(Fault::NameEmpty));
    }
    if name.as_bytes().len() > MAX_PRESET_NAME_LEN {
        return Err(EqError::plain(Fault::NameTooLong));
    }
    if is_white(name.get_char(0)) || is_white(name.get_char(n - 1)) {
        return Err(EqError::plain(Fault::NameSpace));
    }
    let mut i: usize = 0;
    while i < n
        invariant
            i <= n,
            n == name@.len(),
            forall|j: int| 0 <= j < i ==> permitted(#[trigger] name@[j]),
            n > 0,
            encode_utf8(name@).len() <= MAX_PRESET_NAME_LEN,
            !white(name@[0]),
            !white(name@.last()),
        decreases n - i,
    {
        if !is_permitted(name.get_char(i)) {
            assert(!permitted(name@[i as int]));
            return Err(EqError::plain(Fault::NameCharset));
        }
        i += 1;
    }
    Ok(())
}

/// Check that a new preset of `presets` may have this name.
pub fn validate_new_preset_name(presets: &Presets, name: &str) -> (r: Result<(), EqError>)
    ensures
        outcome(r) == new_name(presets@, name@),
{
    match validate_preset_name(name) {
        Err(e) => Err(e),
        Ok(()) => {
            if presets.contains_key(name) {
                Err(EqError::about(Fault::PresetExists, name))
            } else {
                Ok(())
            }
        },
    }
}

/// Check that the session may be saved under this name.
pub fn validate_session_save_name(presets: &Presets, active: &str, name: &str) -> (r: Result<
    (),
    EqError,
>)
    ensures
        outcome(r) == save_name(presets@, active@, name@),
{
    match validate_preset_name(name) {
        Err(e) => Err(e),
        Ok(()) => {
            if presets.contains_key(name) && !is_shipped_preset_name(name) && !same_text(
                name,
                active,
            ) {
                Err(EqError::about(Fault::PresetExists, name))
            } else {
                Ok(())
            }
        },
    }
}

/// The names of the shipped presets, in their order.
pub fn shipped_preset_names() -> (v: Vec<String>)
    ensures
        texts(v@) == listing(shipped()),
        is_listing(texts(v@), shipped()),
{
    shipped_presets().names()
}

/// Whether a shipped preset has this name.
pub fn is_shipped_preset_name(name: &str) -> (r: bool)
    ensures
        r == shipped().contains_key(name@),
{
    shipped_presets().contains_key(name)
}

// --- operations --------------------------------------------------------------------

/// `r` and the config after the call are what `expected` says; on failure the config is as it
/// was.
pub open spec fn carried_out(
    expected: Result<ConfigView, ErrorView>,
    before: ConfigView,
    after: ConfigView,
    r: Result<(), EqError>,
) -> bool {
    match expected {
        Ok(c) => r is Ok && after == c,
        Err(e) => outcome(r) == Err::<(), ErrorView>(e) && after == before,
    }
}

/// What is wrong with the first of the names that cannot be deleted: it comes twice, or no
/// preset has it.
pub open spec fn names_trouble(m: Contents, names: Seq<Seq<char>>) -> Option<ErrorView>
    decreases names.len(),
{
    if names.len() == 0 {
        None
    } else {
        let before = names.drop_last();
        let trouble = names_trouble(m, before);
        if trouble is Some {
            trouble
        } else if before.contains(names.last()) {
            Some(about(Fault::DuplicateName, names.last()))
        } else if !m.contains_key(names.last()) {
            Some(about(Fault::NoSuchPreset, names.last()))
        } else {
            None
        }
    }
}

/// The config without the named presets. Where the active preset is one of them, the first of
/// the remaining ones takes its place.
pub open spec fn without(c: ConfigView, names: Seq<Seq<char>>) -> ConfigView {
    let rest = c.presets.remove_keys(names.to_set());
    ConfigView {
        active_preset: if names.contains(c.active_preset) {
            listing(rest)[0]
        } else {
            c.active_preset
        },
        presets: rest,
        ..c
    }
}

/// Deleting presets: all of them or none.
pub open spec fn deleted(c: ConfigView, names: Seq<Seq<char>>) -> Result<ConfigView, ErrorView> {
    if names.len() == 0 {
        Err(plain(Fault::NoNames))
    } else if names_trouble(c.presets, names) is Some {
        Err(names_trouble(c.presets, names)->0)
    } else if names.len() >= c.presets.dom().len() {
        Err(plain(Fault::DeleteEvery))
    } else {
        Ok(without(c, names))
    }
}

/// Renaming a preset.
pub open spec fn renamed(c: ConfigView, from: Seq<char>, to: Seq<char>) -> Result<
    ConfigView,
    ErrorView,
> {
    if !c.presets.contains_key(from) {
        Err(about(Fault::NoSuchPreset, from))
    } else {
        let rest = c.presets.remove(from);
        match new_name(rest, to) {
            Err(e) => Err(e),
            Ok(()) => Ok(
                ConfigView {
                    active_preset: if c.active_preset == from {
                        to
                    } else {
                        c.active_preset
                    },
                    presets: rest.insert(to, c.presets[from]),
                    ..c
                },
            ),
        }
    }
}

/// The file that holds one preset of the config.
pub open spec fn exported(c: ConfigView, name: Seq<char>) -> Result<FileView, ErrorView> {
    if c.presets.contains_key(name) {
        Ok(FileView { name, preset: c.presets[name] })
    } else {
        Err(about(Fault::NoSuchPreset, name))
    }
}

/// The name that an imported preset gets: the one asked for, or the file's own.
pub open spec fn import_name(file: FileView, name: Option<Seq<char>>) -> Seq<char> {
    match name {
        Some(n) => n,
        None => file.name,
    }
}

/// Importing a preset, which becomes the active one.
pub open spec fn imported(c: ConfigView, file: FileView, name: Option<Seq<char>>) -> Result<
    ConfigView,
    ErrorView,
> {
    let n = import_name(file, name);
    match new_name(c.presets, n) {
        Err(e) => Err(e),
        Ok(()) => match preset_fault(file.preset) {
            Some(f) => Err(plain(f)),
            None => Ok(
                ConfigView { active_preset: n, presets: c.presets.insert(n, file.preset), ..c },
            ),
        },
    }
}

/// Restoring one shipped preset.
pub open spec fn reset_one(c: ConfigView, name: Seq<char>) -> Result<ConfigView, ErrorView> {
    if !shipped().contains_key(name) {
        Err(about(Fault::NoShippedPreset, name))
    } else {
        let presets = c.presets.insert(name, shipped()[name]);
        Ok(
            ConfigView {
                active_preset: if presets.contains_key(c.active_preset) {
                    c.active_preset
                } else {
                    name
                },
                presets,
                ..c
            },
        )
    }
}

/// Restoring all shipped presets.
pub open spec fn reset_all(c: ConfigView) -> ConfigView {
    ConfigView {
        active_preset: default_config().active_preset,
        presets: c.presets.union_prefer_right(shipped()),
        ..c
    }
}

/// Copying shipped presets aside, one backup after the other.
pub open spec fn backed_up(c: ConfigView, backups: Seq<BackupView>) -> Result<
    ConfigView,
    ErrorView,
>
    decreases backups.len(),
{
    if backups.len() == 0 {
        Ok(c)
    } else {
        let b = backups.last();
        match backed_up(c, backups.drop_last()) {
            Err(e) => Err(e),
            Ok(d) => if !shipped().contains_key(b.source) {
                Err(about(Fault::BackupNotShipped, b.source))
            } else if new_name(d.presets, b.dest) is Err {
                Err(new_name(d.presets, b.dest)->Err_0)
            } else if !d.presets.contains_key(b.source) {
                Err(about(Fault::NoSuchPreset, b.source))
            } else {
                Ok(ConfigView { presets: d.presets.insert(b.dest, d.presets[b.source]), ..d })
            },
        }
    }
}

/// The preset exists and differs from the shipped one of its name.
pub open spec fn modified(c: ConfigView, name: Seq<char>) -> bool {
    c.presets.contains_key(name) && !c.presets[name].equals(shipped()[name])
}

/// The names among `names` of shipped presets that were modified.
pub open spec fn modified_shipped(c: ConfigView, names: Seq<Seq<char>>) -> Result<
    Seq<Seq<char>>,
    ErrorView,
>
    decreases names.len(),
{
    if names.len() == 0 {
        Ok(Seq::empty())
    } else {
        let n = names.last();
        match modified_shipped(c, names.drop_last()) {
            Err(e) => Err(e),
            Ok(v) => if !shipped().contains_key(n) {
                Err(about(Fault::NoShippedPreset, n))
            } else if modified(c, n) {
                Ok(v.push(n))
            } else {
                Ok(v)
            },
        }
    }
}

proof fn trouble_stays(m: Contents, names: Seq<Seq<char>>, n: int)
    requires
        0 <= n <= names.len(),
        names_trouble(m, names.take(n)) is Some,
    ensures
        names_trouble(m, names) == names_trouble(m, names.take(n)),
    decreases names.len() - n,
{
    if n < names.len() {
        assert(names.take(n + 1).drop_last() =~= names.take(n));
        trouble_stays(m, names, n + 1);
    } else {
        assert(names.take(n) =~= names);
    }
}

/// Names that can be deleted are distinct names of presets.
pub proof fn deletable_names(m: Contents, names: Seq<Seq<char>>)
    ensures
        names_trouble(m, names) is None <==> names.no_duplicates() && forall|i: int|
            0 <= i < names.len() ==> m.contains_key(#[trigger] names[i]),
    decreases names.len(),
{
    if names.len() > 0 {
        let d = names.drop_last();
        deletable_names(m, d);
        let x = names.last();
        if names_trouble(m, names) is None {
            assert forall|i: int, j: int|
                0 <= i < names.len() && 0 <= j < names.len() && i != j implies names[i]
                != names[j] by {
                if i < d.len() && j < d.len() {
                    assert(d[i] != d[j]);
                } else if i < d.len() {
                    assert(d[i] == names[i]);
                } else {
                    assert(d[j] == names[j]);
                }
            }
            assert forall|i: int| 0 <= i < names.len() implies m.contains_key(
                #[trigger] names[i],
            ) by {
                if i < d.len() {
                    assert(d[i] == names[i]);
                }
            }
        } else if names.no_duplicates() && forall|i: int|
            0 <= i < names.len() ==> m.contains_key(#[trigger] names[i]) {
            assert forall|i: int| 0 <= i < d.len() implies m.contains_key(#[trigger] d[i]) by {
                assert(d[i] == names[i]);
            }
            assert(d.no_duplicates());
            if d.contains(x) {
                let i = choose|i: int| 0 <= i < d.len() && d[i] == x;
                assert(names[i] == names[names.len() - 1]);
            }
            assert(names[names.len() - 1] == x);
        }
    }
}

fn contains_text(names: &[String], upto: usize, name: &str) -> (r: bool)
    requires
        upto <= names.len(),
    ensures
        r == texts(names@).take(upto as int).contains(name@),
{
    let ghost s = texts(names@).take(upto as int);
    let mut i: usize = 0;
    while i < upto
        invariant
            i <= upto <= names.len(),
            s == texts(names@).take(upto as int),
            forall|j: int| 0 <= j < i ==> #[trigger] s[j] != name@,
        decreases upto - i,
    {
        if same_text(&names[i], name) {
            assert(s[i as int] == name@);
            return true;
        }
        assert(s[i as int] != name@);
        i += 1;
    }
    false
}

/// Delete the named presets: all of them, or none where one is missing or given twice, or
/// where no preset would be left. Deleting the active preset selects the first remaining one.
pub fn delete_presets(config: &mut Config, names: &[String]) -> (r: Result<(), EqError>)
    ensures
        carried_out(deleted(old(config)@, texts(names@)), old(config)@, final(config)@, r),
{
    let ghost c = config@;
    let ghost s = texts(names@);
    if names.len() == 0 {
        return Err(EqError::plain(Fault::NoNames));
    }
    let mut i: usize = 0;
    while i < names.len()
        invariant
            i <= names.len(),
            names.len() > 0,
            s == texts(names@),
            c == old(config)@,
            config@ == c,
            names_trouble(c.presets, s.take(i as int)) is None,
        decreases names.len() - i,
    {
        proof {
            assert(s.take(i + 1).drop_last() =~= s.take(i as int));
            assert(s.take(i + 1).last() == names[i as int]@);
        }
        if contains_text(names, i, &names[i]) {
            proof {
                trouble_stays(c.presets, s, i + 1);
            }
            return Err(EqError::about(Fault::DuplicateName, &names[i]));
        }
        if !config.presets.contains_key(&names[i]) {
            proof {
                trouble_stays(c.presets, s, i + 1);
            }
            return Err(EqError::about(Fault::NoSuchPreset, &names[i]));
        }
        i += 1;
    }
    assert(s.take(names.len() as int) =~= s);
    let total = config.presets.len();
    if names.len() >= total {
        return Err(EqError::plain(Fault::DeleteEvery));
    }
    proof {
        deletable_names(c.presets, s);
    }
    let mut k: usize = 0;
    while k < names.len()
        invariant
            k <= names.len() < total,
            s == texts(names@),
            total == c.presets.dom().len(),
            c.presets.dom().finite(),
            s.no_duplicates(),
            forall|j: int| 0 <= j < s.len() ==> c.presets.contains_key(#[trigger] s[j]),
            config@ == (ConfigView {
                presets: c.presets.remove_keys(s.take(k as int).to_set()),
                ..c
            }),
            config@.presets.dom().finite(),
            config@.presets.dom().len() == total - k,
        decreases names.len() - k,
    {
        let ghost before = config@.presets;
        let gone = config.presets.remove(&names[k]);
        proof {
            let done = s.take(k as int);
            let more = s.take(k + 1);
            let n = s[k as int];
            assert(c.presets.contains_key(n));
            assert(!done.contains(n)) by {
                if done.contains(n) {
                    let j = choose|j: int| 0 <= j < done.len() && done[j] == n;
                    assert(s[j] == s[k as int]);
                }
            }
            assert(more =~= done.push(n));
            assert(more.to_set() =~= done.to_set().insert(n)) by {
                assert forall|x: Seq<char>| more.to_set().contains(x) <==> done.to_set().insert(
                    n,
                ).contains(x) by {
                    if more.contains(x) {
                        let j = choose|j: int| 0 <= j < more.len() && more[j] == x;
                        if j < k {
                            assert(done[j] == x);
                        }
                    }
                    if done.contains(x) {
                        let j = choose|j: int| 0 <= j < done.len() && done[j] == x;
                        assert(more[j] == x);
                    }
                    assert(more[k as int] == n);
                }
            }
            assert(before.remove(n) =~= c.presets.remove_keys(more.to_set()));
            assert(before.contains_key(n));
            assert(before.remove(n).dom() =~= before.dom().remove(n));
        }
        k += 1;
    }
    assert(s.take(names.len() as int) =~= s);
    if contains_text(names, names.len(), &config.active_preset) {
        let left = config.presets.len();
        config.active_preset = config.presets.name_at(0).to_owned();
    }
    assert(config@ =~= without(c, s));
    Ok(())
}

/// Rename a preset; the active preset stays active under its new name.
pub fn rename_preset(config: &mut Config, from: &str, to: &str) -> (r: Result<(), EqError>)
    ensures
        carried_out(renamed(old(config)@, from@, to@), old(config)@, final(config)@, r),
{
    let ghost c = config@;
    let preset = match config.presets.remove(from) {
        Some(p) => p,
        None => {
            assert(config@ =~= c);
            return Err(EqError::about(Fault::NoSuchPreset, from));
        },
    };
    match validate_new_preset_name(&config.presets, to) {
        Err(e) => {
            config.presets.insert(from.to_owned(), preset);
            assert(config@.presets =~= c.presets);
            return Err(e);
        },
        Ok(()) => {},
    }
    config.presets.insert(to.to_owned(), preset);
    if same_text(&config.active_preset, from) {
        config.active_preset = to.to_owned();
    }
    Ok(())
}

/// The file for sharing one preset.
pub fn export_preset(config: &Config, name: &str) -> (r: Result<PresetFile, EqError>)
    ensures
        match exported(config@, name@) {
            Ok(f) => r matches Ok(file) && file@ == f,
            Err(e) => r matches Err(error) && error@ == e,
        },
{
    match config.presets.get(name) {
        Some(p) => Ok(
            PresetFile {
                name: name.to_owned(),
                bands: copy_bands(&p.bands),
                preamp_db: p.preamp_db,
            },
        ),
        None => Err(EqError::about(Fault::NoSuchPreset, name)),
    }
}

/// Add the preset of a file under its own name or the one asked for, and select it.
pub fn import_preset(config: &mut Config, file: &PresetFile, name: Option<&str>) -> (r: Result<
    (),
    EqError,
>)
    ensures
        carried_out(
            imported(
                old(config)@,
                file@,
                match name {
                    Some(n) => Some(n@),
                    None => None,
                },
            ),
            old(config)@,
            final(config)@,
            r,
        ),
{
    let n: &str = match name {
        Some(n) => n,
        None => file.name.as_str(),
    };
    match validate_new_preset_name(&config.presets, n) {
        Err(e) => return Err(e),
        Ok(()) => {},
    }
    let preset = file.preset();
    match validate_preset(&preset) {
        Err(e) => return Err(e),
        Ok(()) => {},
    }
    config.presets.insert(n.to_owned(), preset);
    config.active_preset = n.to_owned();
    Ok(())
}

/// Restore one shipped preset. If the active name does not resolve, the restored preset
/// becomes active.
pub fn reset_preset(config: &mut Config, name: &str) -> (r: Result<(), EqError>)
    ensures
        carried_out(reset_one(old(config)@, name@), old(config)@, final(config)@, r),
{
    let defaults = shipped_presets();
    match defaults.get(name) {
        None => Err(EqError::about(Fault::NoShippedPreset, name)),
        Some(p) => {
            config.presets.insert(name.to_owned(), p.clone());
            if !config.presets.contains_key(&config.active_preset) {
                config.active_preset = name.to_owned();
            }
            Ok(())
        },
    }
}

/// Restore all shipped presets and select the shipped default. Other presets and the toggles
/// stay.
pub fn reset_shipped_presets(config: &mut Config)
    ensures
        final(config)@ == reset_all(old(config)@),
{
    let defaults = shipped_presets();
    let ghost c = config@;
    let ghost s = listing(shipped());
    let n = defaults.len();
    let mut i: usize = 0;
    while i < n
        invariant
            i <= n,
            n == s.len(),
            defaults@ == shipped(),
            s == listing(shipped()),
            is_listing(s, shipped()),
            config@ == (ConfigView { presets: config@.presets, ..c }),
            forall|k: Seq<char>| #[trigger]
                config@.presets.contains_key(k) <==> c.presets.contains_key(k) || s.take(
                    i as int,
                ).contains(k),
            forall|k: Seq<char>| #[trigger]
                config@.presets.contains_key(k) ==> config@.presets[k] == if s.take(
                    i as int,
                ).contains(k) {
                    shipped()[k]
                } else {
                    c.presets[k]
                },
        decreases n - i,
    {
        let ghost before = config@.presets;
        config.presets.insert(defaults.name_at(i).to_owned(), defaults.preset_at(i).clone());
        proof {
            let done = s.take(i as int);
            let more = s.take(i + 1);
            let m = config@.presets;
            assert(more =~= done.push(s[i as int]));
            assert forall|k: Seq<char>| more.contains(k) <==> done.contains(k) || k
                == s[i as int] by {
                if more.contains(k) {
                    let j = choose|j: int| 0 <= j < more.len() && more[j] == k;
                    if j < i {
                        assert(done[j] == k);
                    }
                }
                if done.contains(k) {
                    let j = choose|j: int| 0 <= j < done.len() && done[j] == k;
                    assert(more[j] == k);
                }
                assert(more[i as int] == s[i as int]);
            }
            assert forall|k: Seq<char>|
                m.contains_key(k) <==> c.presets.contains_key(k) || more.contains(k) by {
                assert(before.contains_key(k) <==> c.presets.contains_key(k) || done.contains(k));
            }
        }
        i += 1;
    }
    proof {
        assert(s.take(n as int) =~= s);
        let m = config@.presets;
        let e = reset_all(c).presets;
        assert forall|k: Seq<char>| m.contains_key(k) <==> e.contains_key(k) by {
            assert(s.contains(k) <==> shipped().contains_key(k));
        }
        assert forall|k: Seq<char>| m.contains_key(k) implies m[k] == e[k] by {
            assert(s.contains(k) <==> shipped().contains_key(k));
        }
        assert(m =~= e);
    }
    config.active_preset = "bright".to_owned();
}

proof fn backup_failure_stays(c: ConfigView, backups: Seq<BackupView>, n: int)
    requires
        0 <= n <= backups.len(),
        backed_up(c, backups.take(n)) is Err,
    ensures
        backed_up(c, backups) == backed_up(c, backups.take(n)),
    decreases backups.len() - n,
{
    if n < backups.len() {
        assert(backups.take(n + 1).drop_last() =~= backups.take(n));
        backup_failure_stays(c, backups, n + 1);
    } else {
        assert(backups.take(n) =~= backups);
    }
}

/// Copy shipped presets aside under new names. On failure `config` may hold the copies that
/// came before the failing one; callers work on a copy of the config.
fn apply_reset_backups(config: &mut Config, backups: &[PresetBackup]) -> (r: Result<(), EqError>)
    ensures
        match backed_up(old(config)@, backups_of(backups@)) {
            Ok(c) => r is Ok && final(config)@ == c,
            Err(e) => outcome(r) == Err::<(), ErrorView>(e),
        },
{
    let ghost c = config@;
    let ghost s = backups_of(backups@);
    let mut i: usize = 0;
    while i < backups.len()
        invariant
            i <= backups.len(),
            s == backups_of(backups@),
            c == old(config)@,
            backed_up(c, s.take(i as int)) == Ok::<ConfigView, ErrorView>(config@),
        decreases backups.len() - i,
    {
        let b = &backups[i];
        proof {
            assert(s.take(i + 1).drop_last() =~= s.take(i as int));
            assert(s.take(i + 1).last() == b@);
        }
        if !is_shipped_preset_name(&b.source) {
            proof {
                backup_failure_stays(c, s, i + 1);
            }
            return Err(EqError::about(Fault::BackupNotShipped, &b.source));
        }
        match validate_new_preset_name(&config.presets, &b.dest) {
            Err(e) => {
                proof {
                    backup_failure_stays(c, s, i + 1);
                }
                return Err(e);
            },
            Ok(()) => {},
        }
        let preset = match config.presets.get(&b.source) {
            Some(p) => p.clone(),
            None => {
                proof {
                    backup_failure_stays(c, s, i + 1);
                }
                return Err(EqError::about(Fault::NoSuchPreset, &b.source));
            },
        };
        config.presets.insert(b.dest.clone(), preset);
        i += 1;
    }
    assert(s.take(backups.len() as int) =~= s);
    Ok(())
}

/// Restoring one shipped preset once the backups are made.
pub open spec fn reset_one_after(
    c: ConfigView,
    backups: Seq<BackupView>,
    name: Seq<char>,
) -> Result<ConfigView, ErrorView> {
    match backed_up(c, backups) {
        Err(e) => Err(e),
        Ok(d) => reset_one(d, name),
    }
}

/// Restoring all shipped presets once the backups are made.
pub open spec fn reset_all_after(c: ConfigView, backups: Seq<BackupView>) -> Result<
    ConfigView,
    ErrorView,
> {
    match backed_up(c, backups) {
        Err(e) => Err(e),
        Ok(d) => Ok(reset_all(d)),
    }
}

/// A new config, or the failure to make one.
pub open spec fn made(expected: Result<ConfigView, ErrorView>, r: Result<Config, EqError>) -> bool {
    match expected {
        Ok(c) => r matches Ok(config) && config@ == c,
        Err(e) => r matches Err(error) && error@ == e,
    }
}

/// The config with one shipped preset restored, and modified presets copied aside first.
pub fn confirmed_reset_preset(config: &Config, name: &str, backups: &[PresetBackup]) -> (r: Result<
    Config,
    EqError,
>)
    ensures
        made(reset_one_after(config@, backups_of(backups@), name@), r),
{
    let mut next = config.clone();
    match apply_reset_backups(&mut next, backups) {
        Err(e) => return Err(e),
        Ok(()) => {},
    }
    match reset_preset(&mut next, name) {
        Err(e) => Err(e),
        Ok(()) => Ok(next),
    }
}

/// The config with all shipped presets restored, and modified presets copied aside first.
pub fn confirmed_reset_all(config: &Config, backups: &[PresetBackup]) -> (r: Result<
    Config,
    EqError,
>)
    ensures
        made(reset_all_after(config@, backups_of(backups@)), r),
{
    let mut next = config.clone();
    match apply_reset_backups(&mut next, backups) {
        Err(e) => return Err(e),
        Ok(()) => {},
    }
    reset_shipped_presets(&mut next);
    Ok(next)
}

proof fn modified_failure_stays(c: ConfigView, names: Seq<Seq<char>>, n: int)
    requires
        0 <= n <= names.len(),
        modified_shipped(c, names.take(n)) is Err,
    ensures
        modified_shipped(c, names) == modified_shipped(c, names.take(n)),
    decreases names.len() - n,
{
    if n < names.len() {
        assert(names.take(n + 1).drop_last() =~= names.take(n));
        modified_failure_stays(c, names, n + 1);
    } else {
        assert(names.take(n) =~= names);
    }
}

/// The names of the shipped presets among `names` that exist and were modified.
pub fn modified_shipped_presets(config: &Config, names: &[String]) -> (r: Result<
    Vec<String>,
    EqError,
>)
    ensures
        match modified_shipped(config@, texts(names@)) {
            Ok(v) => r matches Ok(out) && texts(out@) == v,
            Err(e) => r matches Err(error) && error@ == e,
        },
{
    let defaults = shipped_presets();
    let ghost s = texts(names@);
    let mut changed: Vec<String> = Vec::new();
    let mut i: usize = 0;
    assert(texts(changed@) =~= Seq::empty());
    while i < names.len()
        invariant
            i <= names.len(),
            s == texts(names@),
            defaults@ == shipped(),
            modified_shipped(config@, s.take(i as int)) == Ok::<Seq<Seq<char>>, ErrorView>(
                texts(changed@),
            ),
        decreases names.len() - i,
    {
        proof {
            assert(s.take(i + 1).drop_last() =~= s.take(i as int));
            assert(s.take(i + 1).last() == names[i as int]@);
        }
        let original = match defaults.get(&names[i]) {
            Some(p) => p,
            None => {
                proof {
                    modified_failure_stays(config@, s, i + 1);
                }
                return Err(EqError::about(Fault::NoShippedPreset, &names[i]));
            },
        };
        match config.presets.get(&names[i]) {
            Some(current) => {
                if !current.same(original) {
                    let ghost before = changed@;
                    let name = names[i].clone();
                    changed.push(name);
                    assert(texts(changed@) =~= texts(before).push(name@));
                }
            },
            None => {},
        }
        i += 1;
    }
    assert(s.take(names.len() as int) =~= s);
    Ok(changed)
}

// --- laws ----------------------------------------------------------------------------

proof fn plain_first_byte(s: Seq<char>)
    requires
        s.len() > 0,
        is_ascii_chars(s),
    ensures
        encode_utf8(s).len() > 0,
        encode_utf8(s)[0] == s[0] as u8,
{
    is_ascii_chars_encode_utf8(s);
}

/// The shipped presets are bright, mellow, and pro.
pub proof fn shipped_names()
    ensures
        listing(shipped()) == seq!["bright"@, "mellow"@, "pro"@],
{
    reveal_strlit("bright");
    reveal_strlit("mellow");
    reveal_strlit("pro");
    let s = seq!["bright"@, "mellow"@, "pro"@];
    plain_first_byte("bright"@);
    plain_first_byte("mellow"@);
    plain_first_byte("pro"@);
    assert(parts_at(encode_utf8("bright"@), encode_utf8("mellow"@), 0));
    assert(parts_at(encode_utf8("bright"@), encode_utf8("pro"@), 0));
    assert(parts_at(encode_utf8("mellow"@), encode_utf8("pro"@), 0));
    assert forall|n: Seq<char>| #[trigger] s.contains(n) <==> shipped().contains_key(n) by {
        assert(s[0] == "bright"@);
        assert(s[1] == "mellow"@);
        assert(s[2] == "pro"@);
    }
    assert(is_listing(s, shipped()));
    listing_is_unique(s, listing(shipped()), shipped());
}

/// Deleting presets takes away exactly the named ones, changes no other preset and no toggle,
/// leaves at least one preset, and leaves an active name that resolves if it resolved before.
pub proof fn deleting_is_exact(c: ConfigView, names: Seq<Seq<char>>)
    requires
        deleted(c, names) is Ok,
        c.presets.dom().finite(),
    ensures
        ({
            let d = deleted(c, names)->Ok_0;
            &&& forall|n: Seq<char>| #[trigger]
                d.presets.contains_key(n) <==> c.presets.contains_key(n) && !names.contains(n)
            &&& forall|n: Seq<char>| #[trigger]
                d.presets.contains_key(n) ==> d.presets[n] == c.presets[n]
            &&& d.presets.dom().len() == c.presets.dom().len() - names.len()
            &&& d.presets.dom().len() > 0
            &&& c.presets.contains_key(c.active_preset) ==> d.presets.contains_key(d.active_preset)
            &&& d == (ConfigView { active_preset: d.active_preset, presets: d.presets, ..c })
        }),
{
    let d = without(c, names);
    let gone = names.to_set();
    deletable_names(c.presets, names);
    names.unique_seq_to_set();
    assert(gone.subset_of(c.presets.dom())) by {
        assert forall|n: Seq<char>| gone.contains(n) implies c.presets.dom().contains(n) by {
            let i = choose|i: int| 0 <= i < names.len() && names[i] == n;
            assert(c.presets.contains_key(names[i]));
        }
    }
    assert(d.presets.dom() =~= c.presets.dom().difference(gone));
    vstd::set_lib::lemma_set_difference_len(c.presets.dom(), gone);
    assert(c.presets.dom().intersect(gone) =~= gone);
    assert forall|n: Seq<char>| #[trigger] d.presets.contains_key(n) <==> c.presets.contains_key(n)
        && !names.contains(n) by {
        assert(gone.contains(n) <==> names.contains(n));
    }
    let s = listing(d.presets);
    listing_exists(d.presets);
    if names.contains(c.active_preset) {
        assert(s.len() > 0) by {
            let n = d.presets.dom().choose();
            assert(d.presets.dom().contains(n));
            assert(s.contains(n));
        }
        assert(s.contains(s[0]));
    }
}

/// Renaming a preset and renaming it back gives the config there was.
pub proof fn renaming_back(c: ConfigView, from: Seq<char>, to: Seq<char>)
    requires
        renamed(c, from, to) is Ok,
        name_fault(from) is None,
        c.presets.contains_key(c.active_preset),
    ensures
        renamed(renamed(c, from, to)->Ok_0, to, from) == Ok::<ConfigView, ErrorView>(c),
{
    let d = renamed(c, from, to)->Ok_0;
    let back = renamed(d, to, from);
    assert(d.presets.remove(to) =~= c.presets.remove(from));
    assert(back is Ok);
    assert(back->Ok_0.presets =~= c.presets);
}

/// An exported preset comes back unchanged from an import.
pub proof fn export_then_import(
    c: ConfigView,
    name: Seq<char>,
    d: ConfigView,
    as_name: Option<Seq<char>>,
)
    requires
        exported(c, name) is Ok,
        imported(d, exported(c, name)->Ok_0, as_name) is Ok,
    ensures
        ({
            let e = imported(d, exported(c, name)->Ok_0, as_name)->Ok_0;
            let n = match as_name {
                Some(n) => n,
                None => name,
            };
            &&& e.active_preset == n
            &&& e.presets[n] == c.presets[name]
            &&& forall|k: Seq<char>| #[trigger]
                d.presets.contains_key(k) ==> e.presets.contains_key(k) && e.presets[k]
                    == d.presets[k]
        }),
{
}

/// Resetting everything restores every shipped preset, keeps every other preset and all
/// toggles, and selects the shipped default; doing it twice is doing it once.
pub proof fn resetting_all(c: ConfigView)
    ensures
        ({
            let d = reset_all(c);
            &&& forall|n: Seq<char>| #[trigger]
                shipped().contains_key(n) ==> d.presets.contains_key(n) && d.presets[n]
                    == shipped()[n]
            &&& forall|n: Seq<char>|
                !shipped().contains_key(n) ==> (#[trigger] d.presets.contains_key(n)
                    <==> c.presets.contains_key(n)) && (c.presets.contains_key(n)
                    ==> d.presets[n] == c.presets[n])
            &&& d.active_preset == "bright"@
            &&& d == (ConfigView { active_preset: d.active_preset, presets: d.presets, ..c })
            &&& reset_all(d) == d
        }),
{
    let d = reset_all(c);
    assert(reset_all(d).presets =~= d.presets);
}

/// Resetting one preset changes no other preset; doing it twice is doing it once.
pub proof fn resetting_one(c: ConfigView, name: Seq<char>)
    requires
        shipped().contains_key(name),
    ensures
        ({
            let d = reset_one(c, name)->Ok_0;
            &&& reset_one(c, name) is Ok
            &&& d.presets == c.presets.insert(name, shipped()[name])
            &&& d.presets.contains_key(d.active_preset)
            &&& reset_one(d, name) == Ok::<ConfigView, ErrorView>(d)
        }),
{
    let d = reset_one(c, name)->Ok_0;
    assert(d.presets.insert(name, shipped()[name]) =~= d.presets);
}

/// After a full reset no shipped preset counts as modified.
pub proof fn reset_leaves_nothing_modified(c: ConfigView, names: Seq<Seq<char>>)
    requires
        forall|i: int| 0 <= i < names.len() ==> shipped().contains_key(#[trigger] names[i]),
    ensures
        modified_shipped(reset_all(c), names) == Ok::<Seq<Seq<char>>, ErrorView>(Seq::empty()),
    decreases names.len(),
{
    if names.len() > 0 {
        let d = names.drop_last();
        assert forall|i: int| 0 <= i < d.len() implies shipped().contains_key(#[trigger] d[i]) by {
            assert(d[i] == names[i]);
        }
        reset_leaves_nothing_modified(c, d);
        let n = names.last();
        assert(shipped().contains_key(names[names.len() - 1]));
        shipped_presets_run();
        assert(default_config().presets.contains_key(n));
        runnable_equals_itself(shipped()[n]);
    }
}

/// A backup holds the contents that its source had, no preset is lost or changed by making
/// backups, and a backup under a name of its own survives the reset that follows.
pub proof fn backups_are_kept(c: ConfigView, backups: Seq<BackupView>, i: int)
    requires
        backed_up(c, backups) is Ok,
        0 <= i < backups.len(),
    ensures
        ({
            let d = backed_up(c, backups)->Ok_0;
            let b = backups[i];
            &&& d.presets.contains_key(b.dest)
            &&& d.presets[b.dest] == d.presets[b.source]
            &&& c.presets.contains_key(b.source) ==> d.presets[b.dest] == c.presets[b.source]
            &&& !shipped().contains_key(b.dest) ==> reset_all(d).presets.contains_key(b.dest)
                && reset_all(d).presets[b.dest] == d.presets[b.dest]
        }),
        backups_only_add(c, backups),
    decreases backups.len(),
{
    backups_add(c, backups);
    let before = backups.drop_last();
    let d = backed_up(c, backups)->Ok_0;
    let m = backed_up(c, before)->Ok_0;
    backups_add(c, before);
    if i < before.len() {
        assert(before[i] == backups[i]);
        backups_are_kept(c, before, i);
        sources_exist(c, before, i);
        assert(m.presets.contains_key(before[i].source));
        assert(m.presets.contains_key(before[i].dest));
    } else {
        assert(backups.last() == backups[i]);
    }
}

/// Making backups keeps every preset as it was.
pub open spec fn backups_only_add(c: ConfigView, backups: Seq<BackupView>) -> bool {
    let d = backed_up(c, backups)->Ok_0;
    &&& forall|n: Seq<char>| #[trigger]
        c.presets.contains_key(n) ==> d.presets.contains_key(n) && d.presets[n] == c.presets[n]
    &&& d == (ConfigView { presets: d.presets, ..c })
}

proof fn backups_add(c: ConfigView, backups: Seq<BackupView>)
    requires
        backed_up(c, backups) is Ok,
    ensures
        backups_only_add(c, backups),
    decreases backups.len(),
{
    if backups.len() > 0 {
        backups_add(c, backups.drop_last());
    }
}

proof fn sources_exist(c: ConfigView, backups: Seq<BackupView>, i: int)
    requires
        backed_up(c, backups) is Ok,
        0 <= i < backups.len(),
    ensures
        backed_up(c, backups)->Ok_0.presets.contains_key(backups[i].source),
    decreases backups.len(),
{
    let before = backups.drop_last();
    if i < before.len() {
        assert(before[i] == backups[i]);
        sources_exist(c, before, i);
    } else {
        assert(backups.last() == backups[i]);
    }
}

/// A name is accepted exactly when it has one to 64 characters, all of them ASCII letters,
/// digits, `-`, `_`, or `.`.
pub proof fn which_names_are_accepted(name: Seq<char>)
    ensures
        name_fault(name) is None <==> 0 < name.len() <= 64 && forall|i: int|
            0 <= i < name.len() ==> {
                let c = #[trigger] name[i];
                'a' <= c <= 'z' || 'A' <= c <= 'Z' || '0' <= c <= '9' || c == '-' || c == '_' || c
                    == '.'
            },
        name_fault(name) == Some(Fault::NameEmpty) <==> name.len() == 0,
        name_fault(name) == Some(Fault::NameTooLong) <==> encode_utf8(name).len() > 64,
        name_fault(name) == Some(Fault::NameSpace) ==> white(name[0]) || white(name.last()),
        name_fault(name) == Some(Fault::NameCharset) ==> exists|i: int|
            0 <= i < name.len() && !permitted(#[trigger] name[i]),
{
    if forall|i: int| 0 <= i < name.len() ==> permitted(#[trigger] name[i]) {
        assert(is_ascii_chars(name));
        is_ascii_chars_encode_utf8(name);
        if name.len() > 0 {
            assert(permitted(name[0]));
            assert(permitted(name[name.len() - 1]));
        }
    }
    if name.len() == 0 {
        assert(is_ascii_chars(name));
        is_ascii_chars_encode_utf8(name);
    }
}

/// A new preset may have a name exactly when the name is accepted and no preset has it yet. A
/// session may also be saved under the name of a shipped preset, and under the active one's.
pub proof fn which_names_are_free(m: Contents, active: Seq<char>, name: Seq<char>)
    ensures
        new_name(m, name) is Ok <==> name_fault(name) is None && !m.contains_key(name),
        save_name(m, active, name) is Ok <==> name_fault(name) is None && (!m.contains_key(name)
            || name == "bright"@ || name == "mellow"@ || name == "pro"@ || name == active),
        name_fault(name) is None && m.contains_key(name) ==> new_name(m, name) == Err::<
            (),
            ErrorView,
        >(ErrorView { fault: Fault::PresetExists, subject: name, detail: Seq::empty() }),
{
}

/// Deleting presets switches to another one only where the active preset is among them, and
/// then to the first of those that are left; a deletion that names a preset twice, one that is
/// not there, none, or all of them, is refused.
pub proof fn deleting_keeps_the_selection(c: ConfigView, names: Seq<Seq<char>>)
    requires
        c.presets.dom().finite(),
    ensures
        deleted(c, names) is Ok <==> {
            &&& names.len() > 0
            &&& names.no_duplicates()
            &&& forall|i: int| 0 <= i < names.len() ==> c.presets.contains_key(#[trigger] names[i])
            &&& names.len() < c.presets.dom().len()
        },
        deleted(c, names) matches Ok(d) ==> {
            &&& !names.contains(c.active_preset) ==> d.active_preset == c.active_preset
            &&& names.contains(c.active_preset) ==> {
                &&& d.presets.contains_key(d.active_preset)
                &&& forall|n: Seq<char>| #[trigger]
                    d.presets.contains_key(n) && n != d.active_preset ==> name_before(
                        d.active_preset,
                        n,
                    )
            }
            &&& d.limiter == c.limiter
            &&& d.auto_follow_new_devices == c.auto_follow_new_devices
            &&& d.auto_off_low_power == c.auto_off_low_power
            &&& d.auto_off_idle == c.auto_off_idle
            &&& d.enabled == c.enabled
        },
{
    deletable_names(c.presets, names);
    if deleted(c, names) is Ok {
        deleting_is_exact(c, names);
        let d = deleted(c, names)->Ok_0;
        let s = listing(d.presets);
        assert(d.presets.dom().subset_of(c.presets.dom()));
        listing_exists(d.presets);
        if names.contains(c.active_preset) {
            let x = d.presets.dom().choose();
            assert(d.presets.dom().contains(x));
            assert(s.contains(x));
            assert(s.contains(s[0]));
            assert forall|n: Seq<char>| #[trigger]
                d.presets.contains_key(n) && n != d.active_preset implies name_before(
                d.active_preset,
                n,
            ) by {
                assert(s.contains(n));
                let i = choose|i: int| 0 <= i < s.len() && s[i] == n;
                assert(name_before(s[0], s[i]));
            }
        }
    }
}

/// Renaming moves the contents of one preset to the new name and leaves every other preset and
/// every switch as it is; the active preset stays the same preset, whatever it is called. It is
/// refused where there is no such preset, and where the new name is bad or another preset's.
pub proof fn renaming_moves_one_preset(c: ConfigView, from: Seq<char>, to: Seq<char>)
    ensures
        renamed(c, from, to) is Ok <==> c.presets.contains_key(from) && name_fault(to) is None && (
        to == from || !c.presets.contains_key(to)),
        renamed(c, from, to) matches Ok(d) ==> {
            &&& d.presets.contains_key(to)
            &&& d.presets[to] == c.presets[from]
            &&& forall|n: Seq<char>|
                n != to ==> (#[trigger] d.presets.contains_key(n) <==> n != from
                    && c.presets.contains_key(n))
            &&& forall|n: Seq<char>|
                n != to && #[trigger] d.presets.contains_key(n) ==> d.presets[n] == c.presets[n]
            &&& c.active_preset == from ==> d.active_preset == to
            &&& c.active_preset != from ==> d.active_preset == c.active_preset
            &&& d == (ConfigView { active_preset: d.active_preset, presets: d.presets, ..c })
        },
{
}

/// An export holds the named preset as it is, under its name; there is one exactly where there
/// is such a preset.
pub proof fn an_export_is_the_preset(c: ConfigView, name: Seq<char>)
    ensures
        exported(c, name) is Ok <==> c.presets.contains_key(name),
        exported(c, name) matches Ok(f) ==> f.name == name && f.preset.bands
            == c.presets[name].bands && f.preset.preamp_db == c.presets[name].preamp_db,
{
}

/// An import adds one preset with the contents of the file, under the name that was asked for
/// or else the file's, selects it, and leaves everything else as it is. It is refused where the
/// name is bad or taken, and where the preset cannot be run.
pub proof fn an_import_adds_one_preset(c: ConfigView, file: FileView, name: Option<Seq<char>>)
    ensures
        ({
            let n = match name {
                Some(n) => n,
                None => file.name,
            };
            &&& imported(c, file, name) is Ok <==> name_fault(n) is None
                && !c.presets.contains_key(n) && preset_fault(file.preset) is None
            &&& imported(c, file, name) matches Ok(d) ==> {
                &&& d.active_preset == n
                &&& d.presets.contains_key(n)
                &&& d.presets[n].bands == file.preset.bands
                &&& d.presets[n].preamp_db == file.preset.preamp_db
                &&& forall|k: Seq<char>|
                    k != n ==> (#[trigger] d.presets.contains_key(k) <==> c.presets.contains_key(
                        k,
                    ))
                &&& forall|k: Seq<char>|
                    k != n && #[trigger] d.presets.contains_key(k) ==> d.presets[k] == c.presets[k]
                &&& d == (ConfigView { active_preset: d.active_preset, presets: d.presets, ..c })
            }
        }),
{
}

/// Resetting one preset gives it its shipped contents, and changes no other preset and no
/// switch; the selection stays, unless it named no preset.
pub proof fn resetting_one_changes_just_it(c: ConfigView, name: Seq<char>)
    ensures
        reset_one(c, name) is Ok <==> name == "bright"@ || name == "mellow"@ || name == "pro"@,
        reset_one(c, name) matches Ok(d) ==> {
            &&& d.presets.contains_key(name)
            &&& d.presets[name] == shipped()[name]
            &&& forall|n: Seq<char>|
                n != name ==> (#[trigger] d.presets.contains_key(n) <==> c.presets.contains_key(n))
            &&& forall|n: Seq<char>|
                n != name && #[trigger] d.presets.contains_key(n) ==> d.presets[n] == c.presets[n]
            &&& c.presets.contains_key(c.active_preset) ==> d.active_preset == c.active_preset
            &&& !c.presets.contains_key(c.active_preset) && c.active_preset != name
                ==> d.active_preset == name
            &&& d == (ConfigView { active_preset: d.active_preset, presets: d.presets, ..c })
        },
{
}

/// The shipped presets that a reset warns about are exactly those that are there and differ
/// from their shipped originals in the preamp or in any band; they are told in the order they
/// were asked for. The question is refused where a name is not that of a shipped preset.
pub proof fn modified_presets_are_found(c: ConfigView, names: Seq<Seq<char>>)
    ensures
        modified_shipped(c, names) is Ok <==> forall|i: int|
            0 <= i < names.len() ==> shipped().contains_key(#[trigger] names[i]),
        modified_shipped(c, names) matches Ok(v) ==> {
            &&& forall|n: Seq<char>| #[trigger]
                v.contains(n) <==> names.contains(n) && c.presets.contains_key(n) && ({
                    let p = c.presets[n];
                    let q = shipped()[n];
                    ||| !p.preamp_db.equals(q.preamp_db)
                    ||| p.bands.len() != q.bands.len()
                    ||| exists|i: int|
                        0 <= i < p.bands.len() && ((#[trigger] p.bands[i]).kind != q.bands[i].kind
                            || !p.bands[i].freq.equals(q.bands[i].freq)
                            || !p.bands[i].gain_db.equals(q.bands[i].gain_db)
                            || !p.bands[i].q.equals(q.bands[i].q))
                })
            &&& v.len() <= names.len()
            &&& v.len() == 0 <==> forall|i: int|
                0 <= i < names.len() ==> !v.contains(#[trigger] names[i])
        },
    decreases names.len(),
{
    if names.len() > 0 {
        let before = names.drop_last();
        let x = names.last();
        modified_presets_are_found(c, before);
        assert(x == names[names.len() - 1]);
        assert forall|i: int| 0 <= i < before.len() implies before[i] == #[trigger] names[i] by {}
        assert(names =~= before.push(x));
        if modified_shipped(c, names) is Ok {
            let w = modified_shipped(c, before)->Ok_0;
            let v = modified_shipped(c, names)->Ok_0;
            assert forall|i: int| 0 <= i < names.len() implies shipped().contains_key(
                #[trigger] names[i],
            ) by {
                if i < before.len() {
                    assert(shipped().contains_key(before[i]));
                }
            }
            crate::config::presets_differ_in_any_figure(c.presets[x], shipped()[x]);
            assert forall|n: Seq<char>| v.contains(n) <==> w.contains(n) || (n == x && modified(
                c,
                x,
            )) by {
                if v.contains(n) {
                    let i = choose|i: int| 0 <= i < v.len() && v[i] == n;
                    if i < w.len() {
                        assert(w[i] == n);
                    }
                }
                if w.contains(n) {
                    let i = choose|i: int| 0 <= i < w.len() && w[i] == n;
                    assert(v[i] == n);
                }
                if modified(c, x) {
                    assert(v[v.len() - 1] == x);
                }
            }
            assert forall|n: Seq<char>| names.contains(n) <==> before.contains(n) || n == x by {
                if names.contains(n) {
                    let i = choose|i: int| 0 <= i < names.len() && names[i] == n;
                    if i < before.len() {
                        assert(before[i] == n);
                    }
                }
                if before.contains(n) {
                    let i = choose|i: int| 0 <= i < before.len() && before[i] == n;
                    assert(names[i] == n);
                }
            }
            if v.len() > 0 {
                assert(v.contains(v[0]));
                assert(names.contains(v[0]));
                let i = choose|i: int| 0 <= i < names.len() && names[i] == v[0];
                assert(v.contains(names[i]));
            }
        } else if forall|i: int|
            0 <= i < names.len() ==> shipped().contains_key(#[trigger] names[i]) {
            assert forall|i: int| 0 <= i < before.len() implies shipped().contains_key(
                #[trigger] before[i],
            ) by {
                assert(shipped().contains_key(names[i]));
            }
        }
    }
}

/// Making backups adds presets under the names of the backups and no others, and each of those
/// names was free. It succeeds only for shipped presets that are there.
pub proof fn backups_add_only_their_names(c: ConfigView, backups: Seq<BackupView>)
    requires
        backed_up(c, backups) is Ok,
    ensures
        ({
            let d = backed_up(c, backups)->Ok_0;
            &&& forall|n: Seq<char>| #[trigger]
                d.presets.contains_key(n) <==> c.presets.contains_key(n) || exists|i: int|
                    0 <= i < backups.len() && (#[trigger] backups[i]).dest == n
            &&& forall|i: int|
                0 <= i < backups.len() ==> !c.presets.contains_key((#[trigger] backups[i]).dest)
                    && name_fault(backups[i].dest) is None && shipped().contains_key(
                    backups[i].source,
                )
            &&& d.active_preset == c.active_preset
        }),
    decreases backups.len(),
{
    if backups.len() > 0 {
        let before = backups.drop_last();
        backups_add_only_their_names(c, before);
        let m = backed_up(c, before)->Ok_0;
        let d = backed_up(c, backups)->Ok_0;
        let b = backups.last();
        assert(b == backups[backups.len() - 1]);
        assert forall|n: Seq<char>| #[trigger] d.presets.contains_key(n) <==> c.presets.contains_key(
            n,
        ) || exists|i: int| 0 <= i < backups.len() && (#[trigger] backups[i]).dest == n by {
            if exists|i: int| 0 <= i < backups.len() && (#[trigger] backups[i]).dest == n {
                let i = choose|i: int| 0 <= i < backups.len() && (#[trigger] backups[i]).dest == n;
                if i < before.len() {
                    assert(before[i] == backups[i]);
                    assert(m.presets.contains_key(n));
                }
            }
            if m.presets.contains_key(n) && !c.presets.contains_key(n) {
                let i = choose|i: int| 0 <= i < before.len() && (#[trigger] before[i]).dest == n;
                assert(before[i] == backups[i]);
            }
        }
        assert forall|i: int| 0 <= i < backups.len() implies !c.presets.contains_key(
            (#[trigger] backups[i]).dest,
        ) && name_fault(backups[i].dest) is None && shipped().contains_key(backups[i].source) by {
            if i < before.len() {
                assert(before[i] == backups[i]);
            } else {
                assert(!m.presets.contains_key(b.dest));
                if c.presets.contains_key(b.dest) {
                    assert(m.presets.contains_key(b.dest));
                }
            }
        }
    }
}

/// An operation either succeeds as a whole, with exactly the config that is expected, or fails
/// with its own failure and leaves the config as it was.
pub proof fn operations_are_all_or_nothing(
    expected: Result<ConfigView, ErrorView>,
    before: ConfigView,
    after: ConfigView,
    r: Result<(), EqError>,
    n: Result<Config, EqError>,
)
    ensures
        carried_out(expected, before, after, r) ==> {
            &&& r is Ok <==> expected is Ok
            &&& r is Ok ==> Ok::<ConfigView, ErrorView>(after) == expected
            &&& r matches Err(e) ==> after == before && expected == Err::<ConfigView, ErrorView>(
                e@,
            )
        },
        made(expected, n) ==> {
            &&& n matches Ok(c) ==> expected == Ok::<ConfigView, ErrorView>(c@)
            &&& n matches Err(e) ==> expected == Err::<ConfigView, ErrorView>(e@)
        },
{
}

} // verus!
