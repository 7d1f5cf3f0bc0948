//! The core's declared configurable options: conversion from the
//! versioned definition pushes, selection updates validated against the
//! enumerated legal values, visibility toggles, and the `key=value`
//! option file the selections persist in.
//!
//! The embedding application reads and writes the file itself; the
//! library renders the full file content on every change and applies a
//! file's lines permissively — a malformed line, an unknown key or a
//! value outside an option's enumerated set is ignored, never fatal.

use vstd::prelude::*;

use crate::erro_handle::ErroHandle;
use crate::tools::{
    spec_first_token, spec_skip_ws, spec_split, spec_take_until_ws, first_ws_token,
    lemma_split_first_sep, lemma_split_no_sep, split_str, str_eq,
};

verus! {

/// One enumerated legal value of an option, with its display label.
#[derive(Clone, Debug)]
pub struct Values {
    pub value: String,
    pub label: String,
}

/// Ghost image of [`Values`].
pub ghost struct ValuesView {
    pub value: Seq<char>,
    pub label: Seq<char>,
}

impl View for Values {
    type V = ValuesView;

    open spec fn view(&self) -> ValuesView {
        ValuesView { value: self.value@, label: self.label@ }
    }
}

/// One core-declared option.
#[derive(Clone, Debug)]
pub struct Options {
    pub key: String,
    pub visibility: bool,
    pub selected: String,
    pub desc: String,
    pub desc_categorized: String,
    pub info: String,
    pub info_categorized: String,
    pub category_key: String,
    pub values: Vec<Values>,
    pub default_value: String,
}

/// Ghost image of [`Options`].
pub ghost struct OptView {
    pub key: Seq<char>,
    pub visibility: bool,
    pub selected: Seq<char>,
    pub desc: Seq<char>,
    pub desc_categorized: Seq<char>,
    pub info: Seq<char>,
    pub info_categorized: Seq<char>,
    pub category_key: Seq<char>,
    pub values: Seq<ValuesView>,
    pub default_value: Seq<char>,
}

impl View for Options {
    type V = OptView;

    open spec fn view(&self) -> OptView {
        OptView {
            key: self.key@,
            visibility: self.visibility,
            selected: self.selected@,
            desc: self.desc@,
            desc_categorized: self.desc_categorized@,
            info: self.info@,
            info_categorized: self.info_categorized@,
            category_key: self.category_key@,
            values: self.values@.map_values(|v: Values| v@),
            default_value: self.default_value@,
        }
    }
}

/// One option category the core declared.
#[derive(Clone, Debug)]
pub struct Categories {
    pub key: String,
    pub info: String,
    pub desc: String,
}

/// The protocol shapes the option negotiation has gone through
/// historically; the dispatcher always advertises the newest.
#[derive(Clone, Copy, Debug, PartialEq, Eq, Structural, Default)]
pub enum OptionVersion {
    Legacy,
    V1Intl,
    V1,
    V2Intl,
    #[default]
    V2,
}

/// The option state of one core instance, with the path of the file
/// its selections persist in.
#[derive(Clone, Debug)]
pub struct OptionManager {
    pub version: OptionVersion,
    pub file_path: String,
    pub categories: Vec<Categories>,
    pub updated: bool,
    pub opts: Vec<Options>,
}

// ---------------------------------------------------------------------
// Raw mirrors of the versioned definition pushes.
// ---------------------------------------------------------------------
/// Raw mirror of one enumerated value entry; a null label pointer is
/// `None`, and entries without a label are skipped.
#[derive(Clone, Debug)]
pub struct RawValue {
    pub value: String,
    pub label: Option<String>,
}

/// Raw mirror of one option definition; a null key — the array's
/// sentinel — is `None`.
#[derive(Clone, Debug)]
pub struct RawOptionDef {
    pub key: Option<String>,
    pub default_value: String,
    pub info: String,
    pub desc: String,
    pub desc_categorized: String,
    pub category_key: String,
    pub info_categorized: String,
    pub values: Vec<RawValue>,
}

/// Raw mirror of one category entry; a null key is `None`.
#[derive(Clone, Debug)]
pub struct RawCategory {
    pub key: Option<String>,
    pub info: String,
    pub desc: String,
}

/// Raw mirror of one full v2 definition set.
#[derive(Clone, Debug)]
pub struct RawOptionsV2 {
    pub definitions: Vec<RawOptionDef>,
    pub categories: Vec<RawCategory>,
}

/// Raw mirror of the international v2 push: the default set plus an
/// optional localized set; null pointers are `None`.
#[derive(Clone, Debug)]
pub struct RawOptionsV2Intl {
    pub us: Option<RawOptionsV2>,
    pub local: Option<RawOptionsV2>,
}

// ---------------------------------------------------------------------
// Conversion of a definition push.
// ---------------------------------------------------------------------
/// The definition entries before the first sentinel.
pub open spec fn spec_def_prefix(s: Seq<RawOptionDef>) -> Seq<RawOptionDef>
    decreases s.len(),
{
    if s.len() == 0 || s[0].key is None {
        Seq::empty()
    } else {
        seq![s[0]] + spec_def_prefix(s.drop_first())
    }
}

/// The category entries before the first sentinel.
pub open spec fn spec_cat_prefix(s: Seq<RawCategory>) -> Seq<RawCategory>
    decreases s.len(),
{
    if s.len() == 0 || s[0].key is None {
        Seq::empty()
    } else {
        seq![s[0]] + spec_cat_prefix(s.drop_first())
    }
}

/// The labelled entries of a raw value array, in order.
pub open spec fn spec_labelled_values(s: Seq<RawValue>) -> Seq<Values>
    decreases s.len(),
{
    if s.len() == 0 {
        Seq::empty()
    } else if s[0].label is Some {
        seq![
            Values { value: s[0].value, label: s[0].label->Some_0 },
        ] + spec_labelled_values(s.drop_first())
    } else {
        spec_labelled_values(s.drop_first())
    }
}

/// Whether `o` is the converted form of the (non-sentinel) raw
/// definition `d`: visible, with the declared default as the initial
/// selection, and only the labelled value entries kept.
pub open spec fn spec_is_converted_def(o: Options, d: RawOptionDef) -> bool {
    &&& o.key == d.key->Some_0
    &&& o.visibility == true
    &&& o.selected == d.default_value
    &&& o.default_value == d.default_value
    &&& o.info == d.info
    &&& o.desc == d.desc
    &&& o.desc_categorized == d.desc_categorized
    &&& o.category_key == d.category_key
    &&& o.info_categorized == d.info_categorized
    &&& o.values@ == spec_labelled_values(d.values@)
}

/// Whether `c` is the converted form of the raw category `r`.
pub open spec fn spec_is_converted_cat(c: Categories, r: RawCategory) -> bool {
    c.key == r.key->Some_0 && c.info == r.info && c.desc == r.desc
}

proof fn lemma_def_prefix_step(s: Seq<RawOptionDef>, i: int)
    requires
        0 <= i < s.len(),
    ensures
        s[i].key is Some ==> spec_def_prefix(s.skip(i)) == seq![s[i]] + spec_def_prefix(
            s.skip(i + 1),
        ),
        s[i].key is None ==> spec_def_prefix(s.skip(i)) == Seq::<RawOptionDef>::empty(),
{
    assert(s.skip(i).drop_first() =~= s.skip(i + 1));
}

proof fn lemma_cat_prefix_step(s: Seq<RawCategory>, i: int)
    requires
        0 <= i < s.len(),
    ensures
        s[i].key is Some ==> spec_cat_prefix(s.skip(i)) == seq![s[i]] + spec_cat_prefix(
            s.skip(i + 1),
        ),
        s[i].key is None ==> spec_cat_prefix(s.skip(i)) == Seq::<RawCategory>::empty(),
{
    assert(s.skip(i).drop_first() =~= s.skip(i + 1));
}

proof fn lemma_labelled_values_step(s: Seq<RawValue>, i: int)
    requires
        0 <= i < s.len(),
    ensures
        s[i].label is Some ==> spec_labelled_values(s.skip(i)) == seq![
            Values { value: s[i].value, label: s[i].label->Some_0 },
        ] + spec_labelled_values(s.skip(i + 1)),
        s[i].label is None ==> spec_labelled_values(s.skip(i)) == spec_labelled_values(
            s.skip(i + 1),
        ),
{
    assert(s.skip(i).drop_first() =~= s.skip(i + 1));
}

// ---------------------------------------------------------------------
// Selection updates and the option file.
// ---------------------------------------------------------------------
/// The position of the first option whose key is `key`, or -1.
pub open spec fn spec_first_key_index(opts: Seq<OptView>, key: Seq<char>) -> int
    decreases opts.len(),
{
    if opts.len() == 0 {
        -1
    } else if opts[0].key == key {
        0
    } else {
        let r = spec_first_key_index(opts.drop_first(), key);
        if r == -1 {
            -1
        } else {
            r + 1
        }
    }
}

/// Whether `value` is one of the enumerated legal values of `o`.
pub open spec fn spec_opt_has_value(o: OptView, value: Seq<char>) -> bool {
    exists|k: int| 0 <= k < o.values.len() && (#[trigger] o.values[k]).value == value
}

/// One validated selection update: the first option keyed `key` takes
/// `value` as its selection — but only when `value` is one of its
/// enumerated legal values — and the updated flag is raised; anything
/// else leaves the state alone.
pub open spec fn spec_apply_kv(
    opts: Seq<OptView>,
    updated: bool,
    key: Seq<char>,
    value: Seq<char>,
) -> (Seq<OptView>, bool) {
    let i = spec_first_key_index(opts, key);
    if i >= 0 && spec_opt_has_value(opts[i], value) {
        (opts.update(i, OptView { selected: value, ..opts[i] }), true)
    } else {
        (opts, updated)
    }
}

/// The option file content: one `key=selected` line per option, each
/// closed by a newline.
pub open spec fn spec_render(opts: Seq<OptView>) -> Seq<char>
    decreases opts.len(),
{
    if opts.len() == 0 {
        Seq::empty()
    } else {
        opts[0].key + seq!['='] + opts[0].selected + seq!['\n'] + spec_render(opts.drop_first())
    }
}

/// The effect of reading option-file lines, in order: reading stops at
/// the first empty line; a line without `=` or without a value token is
/// ignored; anything else is a selection update, validated as
/// [`spec_apply_kv`] says.
pub open spec fn spec_apply_lines(
    opts: Seq<OptView>,
    updated: bool,
    lines: Seq<Seq<char>>,
) -> (Seq<OptView>, bool)
    decreases lines.len(),
{
    if lines.len() == 0 {
        (opts, updated)
    } else if lines[0].len() == 0 {
        (opts, updated)
    } else {
        let pieces = spec_split(lines[0], '=');
        let after = if pieces.len() < 2 {
            (opts, updated)
        } else {
            match spec_first_token(pieces[1]) {
                None => (opts, updated),
                Some(tok) => spec_apply_kv(opts, updated, pieces[0], tok),
            }
        };
        spec_apply_lines(after.0, after.1, lines.drop_first())
    }
}

impl OptionManager {
    /// Ghost image of the option list.
    pub open spec fn opts_view(&self) -> Seq<OptView> {
        self.opts@.map_values(|o: Options| o@)
    }

    /// A fresh manager for a core named `library_name`: no options yet,
    /// the updated flag raised, the file path derived from the option
    /// root and the library name.
    pub fn new(opt_path: &str, library_name: String) -> (r: OptionManager)
        ensures
            r.version == OptionVersion::V2,
            r.file_path@ == opt_path@ + "/"@ + library_name@ + ".opt"@,
            r.categories@ == Seq::<Categories>::empty(),
            r.updated == true,
            r.opts@ == Seq::<Options>::empty(),
    {
        let mut file_path = opt_path.to_owned();
        file_path.append("/");
        file_path.append(library_name.as_str());
        file_path.append(".opt");
        OptionManager {
            version: OptionVersion::V2,
            file_path,
            categories: Vec::new(),
            updated: true,
            opts: Vec::new(),
        }
    }

    /// Applies one selection update, validated against the option's
    /// enumerated values.
    fn change_value_selected(&mut self, opt_key: &str, new_value_selected: &str)
        ensures
            (final(self).opts_view(), final(self).updated) == spec_apply_kv(
                old(self).opts_view(),
                old(self).updated,
                opt_key@,
                new_value_selected@,
            ),
            final(self).version == old(self).version,
            final(self).file_path == old(self).file_path,
            final(self).categories == old(self).categories,
    {
        let ghost old_view = old(self).opts_view();
        let n = self.opts.len();
        let mut i: usize = 0;
        while i < n
            invariant
                0 <= i <= n,
                n == self.opts@.len(),
                *self == *old(self),
                old_view == old(self).opts_view(),
                forall|j: int| 0 <= j < i ==> (#[trigger] old_view[j]).key != opt_key@,
            decreases n - i,
        {
            proof {
                assert(old_view[i as int] == self.opts@[i as int]@);
            }
            let found_key = str_eq(self.opts[i].key.as_str(), opt_key);
            if found_key {
                proof {
                    lemma_first_key_found(old_view, opt_key@, i as int);
                }
                let m = self.opts[i].values.len();
                let mut k: usize = 0;
                while k < m
                    invariant
                        0 <= k <= m,
                        0 <= i < n,
                        n == self.opts@.len(),
                        m == old_view[i as int].values.len(),
                        *self == *old(self),
                        old_view == old(self).opts_view(),
                        spec_first_key_index(old_view, opt_key@) == i as int,
                        forall|t: int|
                            0 <= t < k ==> (#[trigger] old_view[i as int].values[t]).value
                                != new_value_selected@,
                    decreases m - k,
                {
                    proof {
                        assert(old_view[i as int] == self.opts@[i as int]@);
                        assert(old_view[i as int].values[k as int] == self.opts@[
                            i as int
                        ].values@[k as int]@);
                    }
                    let is_match = str_eq(
                        self.opts[i].values[k].value.as_str(),
                        new_value_selected,
                    );
                    if is_match {
                        proof {
                            assert(spec_opt_has_value(old_view[i as int], new_value_selected@));
                        }
                        let ghost prev = self.opts@;
                        let fresh_value = new_value_selected.to_owned();
                        let o = &mut self.opts[i];
                        o.selected = fresh_value;
                        self.updated = true;
                        proof {
                            let target = spec_apply_kv(
                                old_view,
                                old(self).updated,
                                opt_key@,
                                new_value_selected@,
                            );
                            assert(prev == old(self).opts@);
                            assert(self.opts@ == prev.update(i as int, self.opts@[i as int]));
                            assert(old_view[i as int] == prev[i as int]@);
                            assert(self.opts@[i as int]@ == (OptView {
                                selected: new_value_selected@,
                                ..old_view[i as int]
                            }));
                            assert forall|j: int|
                                0 <= j < self.opts@.len() implies #[trigger] self.opts_view()[j]
                                == target.0[j] by {
                                assert(self.opts_view()[j] == self.opts@[j]@);
                                assert(old_view[j] == prev[j]@);
                                if j != i as int {
                                    assert(self.opts@[j] == prev[j]);
                                }
                            }
                            assert(self.opts_view() =~= target.0);
                        }
                        return ;
                    }
                    k += 1;
                }
                proof {
                    assert(!spec_opt_has_value(old_view[i as int], new_value_selected@));
                    assert forall|j: int|
                        0 <= j < self.opts@.len() implies #[trigger] self.opts_view()[j]
                        == old_view[j] by {
                        assert(self.opts_view()[j] == self.opts@[j]@);
                    }
                    assert(self.opts_view() =~= old_view);
                }
                return ;
            }
            i += 1;
        }
        proof {
            lemma_first_key_none(old_view, opt_key@);
            assert forall|j: int|
                0 <= j < self.opts@.len() implies #[trigger] self.opts_view()[j] == old_view[j] by {
                assert(self.opts_view()[j] == self.opts@[j]@);
            }
            assert(self.opts_view() =~= old_view);
        }
    }

    /// The stored selection of the option keyed `key`, if any option
    /// carries that key.
    pub fn find_selected(&self, key: &str) -> (r: Option<String>)
        ensures
            match r {
                Some(v) => spec_first_key_index(self.opts_view(), key@) >= 0 && v@
                    == self.opts_view()[spec_first_key_index(self.opts_view(), key@)].selected,
                None => spec_first_key_index(self.opts_view(), key@) == -1,
            },
    {
        let ghost view = self.opts_view();
        let n = self.opts.len();
        let mut i: usize = 0;
        while i < n
            invariant
                0 <= i <= n,
                n == self.opts@.len(),
                view == self.opts_view(),
                forall|j: int| 0 <= j < i ==> (#[trigger] view[j]).key != key@,
            decreases n - i,
        {
            proof {
                assert(view[i as int] == self.opts@[i as int]@);
            }
            let found = str_eq(self.opts[i].key.as_str(), key);
            if found {
                proof {
                    lemma_first_key_found(view, key@, i as int);
                }
                return Some(self.opts[i].selected.clone());
            }
            i += 1;
        }
        proof {
            lemma_first_key_none(view, key@);
        }
        None
    }

    /// Validates and applies one selection update, then hands back the
    /// full file content to persist — the whole file is rewritten on
    /// every change.
    pub fn update_opt(&mut self, opt_key: &str, new_value_selected: &str) -> (content: String)
        ensures
            (final(self).opts_view(), final(self).updated) == spec_apply_kv(
                old(self).opts_view(),
                old(self).updated,
                opt_key@,
                new_value_selected@,
            ),
            content@ == spec_render(final(self).opts_view()),
            final(self).version == old(self).version,
            final(self).file_path == old(self).file_path,
            final(self).categories == old(self).categories,
    {
        self.change_value_selected(opt_key, new_value_selected);
        self.render_options_file()
    }

    /// Toggles the UI-facing visibility flag of every option keyed
    /// `key`; nothing is persisted.
    pub fn change_visibility(&mut self, key: &str, visibility: bool)
        ensures
            final(self).opts_view().len() == old(self).opts_view().len(),
            forall|j: int|
                0 <= j < old(self).opts_view().len() ==> #[trigger] final(self).opts_view()[j] == (
                if old(self).opts_view()[j].key == key@ {
                    OptView { visibility, ..old(self).opts_view()[j] }
                } else {
                    old(self).opts_view()[j]
                }),
            final(self).version == old(self).version,
            final(self).file_path == old(self).file_path,
            final(self).categories == old(self).categories,
            final(self).updated == old(self).updated,
    {
        let n = self.opts.len();
        let mut i: usize = 0;
        while i < n
            invariant
                0 <= i <= n,
                n == self.opts@.len(),
                self.opts@.len() == old(self).opts@.len(),
                self.version == old(self).version,
                self.file_path == old(self).file_path,
                self.categories == old(self).categories,
                self.updated == old(self).updated,
                forall|j: int| i <= j < n ==> #[trigger] self.opts@[j] == old(self).opts@[j],
                forall|j: int|
                    0 <= j < i ==> #[trigger] self.opts@[j]@ == (
                    if old(self).opts@[j]@.key == key@ {
                        OptView { visibility, ..old(self).opts@[j]@ }
                    } else {
                        old(self).opts@[j]@
                    }),
            decreases n - i,
        {
            let ghost prev = self.opts@;
            let is_match = str_eq(self.opts[i].key.as_str(), key);
            if is_match {
                let o = &mut self.opts[i];
                o.visibility = visibility;
                proof {
                    assert(self.opts@ == prev.update(i as int, self.opts@[i as int]));
                    assert(self.opts@[i as int]@ == (OptView { visibility, ..prev[i as int]@ }));
                    assert(forall|j: int|
                        0 <= j < self.opts@.len() && j != i ==> #[trigger] self.opts@[j]
                            == prev[j]);
                }
            }
            i += 1;
        }
        proof {
            assert forall|j: int|
                0 <= j < old(self).opts@.len() implies #[trigger] self.opts_view()[j] == (
            if old(self).opts_view()[j].key == key@ {
                OptView { visibility, ..old(self).opts_view()[j] }
            } else {
                old(self).opts_view()[j]
            }) by {
                assert(self.opts_view()[j] == self.opts@[j]@);
                assert(old(self).opts_view()[j] == old(self).opts@[j]@);
            }
        }
    }

    /// Renders the option file: one `key=selected` line per option.
    pub fn render_options_file(&self) -> (content: String)
        ensures
            content@ == spec_render(self.opts_view()),
    {
        let ghost full = self.opts_view();
        let mut content = String::new();
        let n = self.opts.len();
        let mut i: usize = 0;
        proof {
            assert(full.skip(0) =~= full);
            assert(Seq::<char>::empty() + spec_render(full) =~= spec_render(full));
        }
        while i < n
            invariant
                0 <= i <= n,
                n == self.opts@.len(),
                full == self.opts_view(),
                spec_render(full) == content@ + spec_render(full.skip(i as int)),
            decreases n - i,
        {
            let ghost before = content@;
            content.append(self.opts[i].key.as_str());
            content.append("=");
            content.append(self.opts[i].selected.as_str());
            content.append("\n");
            proof {
                reveal_strlit("=");
                reveal_strlit("\n");
                assert(full.skip(i as int).drop_first() =~= full.skip(i + 1));
                assert(full.skip(i as int)[0] == full[i as int]);
                assert(content@ =~= (before + full[i as int].key + seq!['='] + full[
                    i as int
                ].selected + seq!['\n']));
                assert(before + (full[i as int].key + seq!['='] + full[i as int].selected + seq![
                    '\n',
                ] + spec_render(full.skip(i + 1))) =~= content@ + spec_render(full.skip(i + 1)));
            }
            i += 1;
        }
        proof {
            assert(full.skip(n as int) =~= Seq::<OptView>::empty());
            assert(content@ + Seq::<char>::empty() =~= content@);
        }
        content
    }

    /// Applies a persisted option file permissively, line by line.
    pub fn apply_options_file(&mut self, content: &str)
        ensures
            (final(self).opts_view(), final(self).updated) == spec_apply_lines(
                old(self).opts_view(),
                old(self).updated,
                spec_split(content@, '\n'),
            ),
            final(self).version == old(self).version,
            final(self).file_path == old(self).file_path,
            final(self).categories == old(self).categories,
    {
        let lines = split_str(content, '\n');
        let ghost all_lines = lines.deep_view();
        let n = lines.len();
        let mut i: usize = 0;
        proof {
            assert(all_lines.skip(0) =~= all_lines);
        }
        while i < n
            invariant
                0 <= i <= n,
                n == lines@.len(),
                all_lines == lines.deep_view(),
                all_lines == spec_split(content@, '\n'),
                all_lines.len() == n,
                spec_apply_lines(old(self).opts_view(), old(self).updated, all_lines)
                    == spec_apply_lines(self.opts_view(), self.updated, all_lines.skip(i as int)),
                self.version == old(self).version,
                self.file_path == old(self).file_path,
                self.categories == old(self).categories,
            decreases n - i,
        {
            proof {
                assert(all_lines.skip(i as int)[0] == all_lines[i as int]);
                assert(all_lines[i as int] == lines@[i as int]@);
                assert(all_lines.skip(i as int).drop_first() =~= all_lines.skip(i + 1));
            }
            let line = &lines[i];
            if line.unicode_len() == 0 {
                proof {
                    assert(spec_apply_lines(self.opts_view(), self.updated, all_lines.skip(i as int))
                        == (self.opts_view(), self.updated));
                    assert(all_lines.skip(n as int).len() == 0) by {
                        assert(all_lines.skip(n as int) =~= Seq::<Seq<char>>::empty());
                    }
                }
                return ;
            }
            let pieces = split_str(line.as_str(), '=');
            proof {
                assert(pieces.deep_view()[0] == pieces@[0]@);
            }
            if pieces.len() >= 2 {
                proof {
                    assert(pieces.deep_view()[1] == pieces@[1]@);
                }
                let token = first_ws_token(pieces[1].as_str());
                match token {
                    Some(tok) => {
                        self.change_value_selected(pieces[0].as_str(), tok.as_str());
                    },
                    None => {},
                }
            }
            i += 1;
        }
        proof {
            assert(all_lines.skip(n as int) =~= Seq::<Seq<char>>::empty());
        }
    }

    /// Reload-or-seed: handed the persisted file's content — or `None`
    /// when no file exists yet — it either applies the file, or returns
    /// the default content the caller must write out.
    pub fn try_reload_pref_option(&mut self, file: Option<&str>) -> (to_write: Option<String>)
        ensures
            match file {
                None => to_write matches Some(content) && content@ == spec_render(
                    old(self).opts_view(),
                ) && *final(self) == *old(self),
                Some(content) => to_write is None && (
                final(self).opts_view(),
                final(self).updated,
                ) == spec_apply_lines(
                    old(self).opts_view(),
                    old(self).updated,
                    spec_split(content@, '\n'),
                ) && final(self).version == old(self).version && final(self).file_path == old(
                    self,
                ).file_path && final(self).categories == old(self).categories,
            },
    {
        match file {
            None => Some(self.render_options_file()),
            Some(content) => {
                self.apply_options_file(content);
                None
            },
        }
    }
}

impl OptionManager {
    /// Converts one non-sentinel raw definition.
    fn convert_def(d: &RawOptionDef) -> (r: Options)
        requires
            d.key is Some,
        ensures
            spec_is_converted_def(r, *d),
    {
        let ghost all = d.values@;
        let mut values: Vec<Values> = Vec::new();
        let m = d.values.len();
        let mut k: usize = 0;
        assert(all.skip(0) =~= all);
        while k < m
            invariant
                0 <= k <= m,
                m == all.len(),
                all == d.values@,
                spec_labelled_values(all) == values@ + spec_labelled_values(all.skip(k as int)),
            decreases m - k,
        {
            proof {
                lemma_labelled_values_step(all, k as int);
            }
            let rv = &d.values[k];
            match &rv.label {
                Some(label) => {
                    let ghost old_values = values@;
                    values.push(Values { value: rv.value.clone(), label: label.clone() });
                    proof {
                        let head = Values {
                            value: all[k as int].value,
                            label: all[k as int].label->Some_0,
                        };
                        assert(values@ =~= old_values + seq![head]);
                        assert(old_values + (seq![head] + spec_labelled_values(all.skip(k + 1)))
                            =~= (old_values + seq![head]) + spec_labelled_values(all.skip(k + 1)));
                    }
                },
                None => {},
            }
            k += 1;
        }
        proof {
            assert(all.skip(m as int) =~= Seq::<RawValue>::empty());
            assert(values@ =~= spec_labelled_values(all));
        }
        Options {
            key: d.key.as_ref().unwrap().clone(),
            visibility: true,
            selected: d.default_value.clone(),
            default_value: d.default_value.clone(),
            info: d.info.clone(),
            desc: d.desc.clone(),
            category_key: d.category_key.clone(),
            desc_categorized: d.desc_categorized.clone(),
            info_categorized: d.info_categorized.clone(),
            values,
        }
    }

    /// The number of definition entries before the first sentinel.
    fn def_prefix_end(definitions: &Vec<RawOptionDef>) -> (end: usize)
        ensures
            end <= definitions@.len(),
            spec_def_prefix(definitions@) == definitions@.subrange(0, end as int),
            forall|j: int| 0 <= j < end ==> (#[trigger] definitions@[j]).key is Some,
    {
        let n = definitions.len();
        let mut i: usize = 0;
        assert(definitions@.skip(0) =~= definitions@);
        while i < n
            invariant
                0 <= i <= n,
                n == definitions@.len(),
                forall|j: int| 0 <= j < i ==> (#[trigger] definitions@[j]).key is Some,
                spec_def_prefix(definitions@) =~= definitions@.subrange(0, i as int)
                    + spec_def_prefix(definitions@.skip(i as int)),
            decreases n - i,
        {
            proof {
                lemma_def_prefix_step(definitions@, i as int);
            }
            match &definitions[i].key {
                None => {
                    proof {
                        assert(definitions@.subrange(0, i as int) + Seq::<RawOptionDef>::empty()
                            =~= definitions@.subrange(0, i as int));
                    }
                    return i;
                },
                Some(_key) => {
                    proof {
                        assert(definitions@.subrange(0, i as int) + (seq![definitions@[i as int]]
                            + spec_def_prefix(definitions@.skip(i + 1))) =~= definitions@.subrange(
                            0,
                            i + 1,
                        ) + spec_def_prefix(definitions@.skip(i + 1)));
                    }
                },
            }
            i += 1;
        }
        proof {
            assert(definitions@.skip(n as int) =~= Seq::<RawOptionDef>::empty());
            assert(definitions@.subrange(0, n as int) + Seq::<RawOptionDef>::empty()
                =~= definitions@.subrange(0, n as int));
        }
        n
    }

    /// Parses a sentinel-terminated definition array and appends the
    /// converted options, each starting out visible with its declared
    /// default selected.
    fn get_v2_intl_definitions(&mut self, definitions: &Vec<RawOptionDef>)
        ensures
            final(self).opts@.len() == old(self).opts@.len() + spec_def_prefix(
                definitions@,
            ).len(),
            forall|j: int|
                0 <= j < old(self).opts@.len() ==> #[trigger] final(self).opts@[j] == old(
                    self,
                ).opts@[j],
            forall|j: int|
                0 <= j < spec_def_prefix(definitions@).len() ==> spec_is_converted_def(
                    #[trigger] final(self).opts@[old(self).opts@.len() + j],
                    spec_def_prefix(definitions@)[j],
                ),
            final(self).version == old(self).version,
            final(self).file_path == old(self).file_path,
            final(self).categories == old(self).categories,
            final(self).updated == old(self).updated,
    {
        let ghost prefix = spec_def_prefix(definitions@);
        let end = Self::def_prefix_end(definitions);
        let mut fresh: Vec<Options> = Vec::new();
        let mut i: usize = 0;
        while i < end
            invariant
                0 <= i <= end,
                end <= definitions@.len(),
                prefix == spec_def_prefix(definitions@),
                prefix == definitions@.subrange(0, end as int),
                forall|j: int| 0 <= j < end ==> (#[trigger] definitions@[j]).key is Some,
                fresh@.len() == i,
                forall|j: int|
                    0 <= j < i ==> spec_is_converted_def(
                        #[trigger] fresh@[j],
                        definitions@[j],
                    ),
            decreases end - i,
        {
            let converted = Self::convert_def(&definitions[i]);
            fresh.push(converted);
            i += 1;
        }
        proof {
            assert(forall|j: int| 0 <= j < prefix.len() ==> prefix[j] == definitions@[j]);
        }
        self.opts.append(&mut fresh);
    }

    /// The number of category entries before the first sentinel.
    fn cat_prefix_end(categories: &Vec<RawCategory>) -> (end: usize)
        ensures
            end <= categories@.len(),
            spec_cat_prefix(categories@) == categories@.subrange(0, end as int),
            forall|j: int| 0 <= j < end ==> (#[trigger] categories@[j]).key is Some,
    {
        let n = categories.len();
        let mut i: usize = 0;
        assert(categories@.skip(0) =~= categories@);
        while i < n
            invariant
                0 <= i <= n,
                n == categories@.len(),
                forall|j: int| 0 <= j < i ==> (#[trigger] categories@[j]).key is Some,
                spec_cat_prefix(categories@) =~= categories@.subrange(0, i as int)
                    + spec_cat_prefix(categories@.skip(i as int)),
            decreases n - i,
        {
            proof {
                lemma_cat_prefix_step(categories@, i as int);
            }
            match &categories[i].key {
                None => {
                    proof {
                        assert(categories@.subrange(0, i as int) + Seq::<RawCategory>::empty()
                            =~= categories@.subrange(0, i as int));
                    }
                    return i;
                },
                Some(_key) => {
                    proof {
                        assert(categories@.subrange(0, i as int) + (seq![categories@[i as int]]
                            + spec_cat_prefix(categories@.skip(i + 1))) =~= categories@.subrange(
                            0,
                            i + 1,
                        ) + spec_cat_prefix(categories@.skip(i + 1)));
                    }
                },
            }
            i += 1;
        }
        proof {
            assert(categories@.skip(n as int) =~= Seq::<RawCategory>::empty());
            assert(categories@.subrange(0, n as int) + Seq::<RawCategory>::empty()
                =~= categories@.subrange(0, n as int));
        }
        n
    }

    /// Parses a sentinel-terminated category array and appends the
    /// converted categories.
    fn get_v2_intl_category(&mut self, categories: &Vec<RawCategory>)
        ensures
            final(self).categories@.len() == old(self).categories@.len() + spec_cat_prefix(
                categories@,
            ).len(),
            forall|j: int|
                0 <= j < old(self).categories@.len() ==> #[trigger] final(self).categories@[j]
                    == old(self).categories@[j],
            forall|j: int|
                0 <= j < spec_cat_prefix(categories@).len() ==> spec_is_converted_cat(
                    #[trigger] final(self).categories@[old(self).categories@.len() + j],
                    spec_cat_prefix(categories@)[j],
                ),
            final(self).version == old(self).version,
            final(self).file_path == old(self).file_path,
            final(self).opts == old(self).opts,
            final(self).updated == old(self).updated,
    {
        let ghost prefix = spec_cat_prefix(categories@);
        let end = Self::cat_prefix_end(categories);
        let mut fresh: Vec<Categories> = Vec::new();
        let mut i: usize = 0;
        while i < end
            invariant
                0 <= i <= end,
                end <= categories@.len(),
                prefix == spec_cat_prefix(categories@),
                prefix == categories@.subrange(0, end as int),
                forall|j: int| 0 <= j < end ==> (#[trigger] categories@[j]).key is Some,
                fresh@.len() == i,
                forall|j: int|
                    0 <= j < i ==> spec_is_converted_cat(
                        #[trigger] fresh@[j],
                        categories@[j],
                    ),
            decreases end - i,
        {
            let c = &categories[i];
            fresh.push(
                Categories {
                    key: c.key.as_ref().unwrap().clone(),
                    info: c.info.clone(),
                    desc: c.desc.clone(),
                },
            );
            i += 1;
        }
        proof {
            assert(forall|j: int| 0 <= j < prefix.len() ==> prefix[j] == categories@[j]);
        }
        self.categories.append(&mut fresh);
    }

    /// Records an international v2 definition push, preferring the
    /// localized set and falling back to the default one.  Fails only
    /// when the push carries neither set — a shape the protocol does
    /// not allow.
    pub fn convert_option_v2_intl(&mut self, option_intl_v2: &RawOptionsV2Intl) -> (r: Result<
        (),
        ErroHandle,
    >)
        ensures
            r is Ok <==> (option_intl_v2.local is Some || option_intl_v2.us is Some),
            r is Err ==> *final(self) == *old(self),
            r is Ok ==> {
                let chosen = if option_intl_v2.local is Some {
                    option_intl_v2.local->Some_0
                } else {
                    option_intl_v2.us->Some_0
                };
                &&& final(self).version == OptionVersion::V2Intl
                &&& final(self).file_path == old(self).file_path
                &&& final(self).updated == old(self).updated
                &&& final(self).opts@.len() == old(self).opts@.len() + spec_def_prefix(
                    chosen.definitions@,
                ).len()
                &&& (forall|j: int|
                    0 <= j < old(self).opts@.len() ==> #[trigger] final(self).opts@[j] == old(
                        self,
                    ).opts@[j])
                &&& (forall|j: int|
                    0 <= j < spec_def_prefix(chosen.definitions@).len() ==> spec_is_converted_def(
                        #[trigger] final(self).opts@[old(self).opts@.len() + j],
                        spec_def_prefix(chosen.definitions@)[j],
                    ))
                &&& final(self).categories@.len() == old(self).categories@.len()
                    + spec_cat_prefix(chosen.categories@).len()
                &&& (forall|j: int|
                    0 <= j < old(self).categories@.len() ==> #[trigger] final(self).categories@[j]
                        == old(self).categories@[j])
                &&& (forall|j: int|
                    0 <= j < spec_cat_prefix(chosen.categories@).len() ==> spec_is_converted_cat(
                        #[trigger] final(self).categories@[old(self).categories@.len() + j],
                        spec_cat_prefix(chosen.categories@)[j],
                    ))
            },
    {
        let set = match &option_intl_v2.local {
            Some(local) => local,
            None => match &option_intl_v2.us {
                Some(us) => us,
                None => {
                    return Err(
                        ErroHandle::error(
                            "core options push carries no definition set".to_owned(),
                        ),
                    );
                },
            },
        };
        self.get_v2_intl_definitions(&set.definitions);
        self.get_v2_intl_category(&set.categories);
        self.version = OptionVersion::V2Intl;
        Ok(())
    }
}

proof fn lemma_first_key_found(opts: Seq<OptView>, key: Seq<char>, i: int)
    requires
        0 <= i < opts.len(),
        opts[i].key == key,
        forall|j: int| 0 <= j < i ==> (#[trigger] opts[j]).key != key,
    ensures
        spec_first_key_index(opts, key) == i,
    decreases i,
{
    if i > 0 {
        lemma_first_key_found(opts.drop_first(), key, i - 1);
    }
}

proof fn lemma_first_key_none(opts: Seq<OptView>, key: Seq<char>)
    requires
        forall|j: int| 0 <= j < opts.len() ==> (#[trigger] opts[j]).key != key,
    ensures
        spec_first_key_index(opts, key) == -1,
    decreases opts.len(),
{
    if opts.len() > 0 {
        lemma_first_key_none(opts.drop_first(), key);
    }
}

// ---------------------------------------------------------------------
// The option-file round trip.
// ---------------------------------------------------------------------
/// A key the option file can carry faithfully: free of newlines and of
/// the `=` that separates key from value.
pub open spec fn spec_plain_key(s: Seq<char>) -> bool {
    forall|t: int| 0 <= t < s.len() ==> s[t] != '\n' && s[t] != '='
}

/// A selection the option file can carry faithfully: free of newlines,
/// of `=`, and of the whitespace the reader tokenises on.
pub open spec fn spec_plain_value(s: Seq<char>) -> bool {
    forall|t: int|
        0 <= t < s.len() ==> s[t] != '\n' && s[t] != '=' && !crate::tools::spec_is_ascii_ws(s[t])
}

/// Whether an option set persists faithfully: keys pairwise distinct
/// and every key and selection plain enough for the line format.
pub open spec fn spec_persist_wf(opts: Seq<OptView>) -> bool {
    &&& (forall|i: int, j: int|
        0 <= i < j < opts.len() ==> (#[trigger] opts[i]).key != (#[trigger] opts[j]).key)
    &&& (forall|i: int| 0 <= i < opts.len() ==> spec_plain_key((#[trigger] opts[i]).key))
    &&& (forall|i: int| 0 <= i < opts.len() ==> spec_plain_value((#[trigger] opts[i]).selected))
}

/// The file lines an option set renders to, one per option, without
/// their closing newlines.
pub open spec fn spec_lines_of(opts: Seq<OptView>) -> Seq<Seq<char>> {
    Seq::new(opts.len(), |j: int| opts[j].key + seq!['='] + opts[j].selected)
}

proof fn lemma_render_split(opts: Seq<OptView>)
    requires
        spec_persist_wf(opts),
    ensures
        spec_split(spec_render(opts), '\n') =~= spec_lines_of(opts) + seq![
            Seq::<char>::empty(),
        ],
    decreases opts.len(),
{
    if opts.len() == 0 {
        assert(spec_render(opts) =~= Seq::<char>::empty());
        assert(spec_split(spec_render(opts), '\n') =~= seq![Seq::<char>::empty()]);
        assert(spec_lines_of(opts) + seq![Seq::<char>::empty()] =~= seq![Seq::<char>::empty()]);
    } else {
        let rest_opts = opts.drop_first();
        let line0 = opts[0].key + seq!['='] + opts[0].selected;
        let s = spec_render(opts);
        let l0 = line0.len() as int;
        assert(spec_persist_wf(rest_opts)) by {
            assert(forall|i: int, j: int|
                0 <= i < j < rest_opts.len() ==> (#[trigger] rest_opts[i]).key != (
                #[trigger] rest_opts[j]).key);
            assert(forall|i: int|
                0 <= i < rest_opts.len() ==> spec_plain_key((#[trigger] rest_opts[i]).key)
                    && spec_plain_value(rest_opts[i].selected));
        }
        lemma_render_split(rest_opts);
        assert(s =~= line0 + seq!['\n'] + spec_render(rest_opts));
        assert(s[l0] == '\n');
        assert(forall|j: int| 0 <= j < l0 ==> s[j] != '\n') by {
            assert(spec_plain_key(opts[0].key));
            assert(spec_plain_value(opts[0].selected));
            assert(forall|j: int| 0 <= j < opts[0].key.len() ==> s[j] == opts[0].key[j]);
            assert(s[opts[0].key.len() as int] == '=');
            assert(forall|j: int|
                opts[0].key.len() + 1 <= j < l0 ==> s[j] == opts[0].selected[j - (
                opts[0].key.len() + 1)]);
        }
        lemma_split_first_sep(s, '\n', l0);
        assert(s.subrange(0, l0) =~= line0);
        assert(s.subrange(l0 + 1, s.len() as int) =~= spec_render(rest_opts));
        assert(spec_lines_of(opts) + seq![Seq::<char>::empty()] =~= seq![line0] + (spec_lines_of(
            rest_opts,
        ) + seq![Seq::<char>::empty()]));
        assert(spec_split(s, '\n') =~= seq![line0] + spec_split(spec_render(rest_opts), '\n'));
    }
}

proof fn lemma_line_split_eq(key: Seq<char>, sel: Seq<char>)
    requires
        spec_plain_key(key),
        spec_plain_value(sel),
    ensures
        spec_split(key + seq!['='] + sel, '=') =~= seq![key, sel],
{
    let s = key + seq!['='] + sel;
    let kl = key.len() as int;
    assert(s[kl] == '=');
    assert(forall|j: int| 0 <= j < kl ==> s[j] != '=') by {
        assert(forall|j: int| 0 <= j < kl ==> s[j] == key[j]);
    }
    lemma_split_first_sep(s, '=', kl);
    assert(s.subrange(0, kl) =~= key);
    assert(s.subrange(kl + 1, s.len() as int) =~= sel);
    lemma_split_no_sep(sel, '=');
}

proof fn lemma_token_plain(sel: Seq<char>)
    requires
        spec_plain_value(sel),
    ensures
        spec_first_token(sel) == (if sel.len() == 0 {
            Option::<Seq<char>>::None
        } else {
            Option::<Seq<char>>::Some(sel)
        }),
{
    if sel.len() > 0 {
        assert(spec_skip_ws(sel) == sel);
        crate::tools::lemma_take_until_ws_step(sel, 0, sel.len() as int);
        assert(sel.skip(0) =~= sel);
        assert(spec_take_until_ws(sel) =~= sel.subrange(0, sel.len() as int));
        assert(sel.subrange(0, sel.len() as int) =~= sel);
    }
}

proof fn lemma_apply_lines_of(opts: Seq<OptView>, updated: bool, k: int)
    requires
        spec_persist_wf(opts),
        0 <= k <= opts.len(),
    ensures
        spec_apply_lines(
            opts,
            updated,
            spec_lines_of(opts).skip(k) + seq![Seq::<char>::empty()],
        ).0 == opts,
    decreases opts.len() - k,
{
    let lines = spec_lines_of(opts).skip(k) + seq![Seq::<char>::empty()];
    if k == opts.len() {
        assert(spec_lines_of(opts).skip(k) =~= Seq::<Seq<char>>::empty());
        assert(lines =~= seq![Seq::<char>::empty()]);
        assert(lines[0].len() == 0);
    } else {
        let key = opts[k].key;
        let sel = opts[k].selected;
        let line = key + seq!['='] + sel;
        assert(lines[0] == spec_lines_of(opts)[k]);
        assert(lines[0] == line);
        assert(line.len() >= 1);
        lemma_line_split_eq(key, sel);
        let pieces = spec_split(line, '=');
        assert(pieces =~= seq![key, sel]);
        assert(pieces.len() == 2);
        assert(pieces[0] == key);
        assert(pieces[1] == sel);
        lemma_token_plain(sel);
        assert(lines.drop_first() =~= spec_lines_of(opts).skip(k + 1) + seq![
            Seq::<char>::empty(),
        ]);
        if sel.len() == 0 {
            lemma_apply_lines_of(opts, updated, k + 1);
        } else {
            assert(forall|j: int| 0 <= j < k ==> (#[trigger] opts[j]).key != key);
            lemma_first_key_found(opts, key, k);
            if spec_opt_has_value(opts[k], sel) {
                assert((OptView { selected: sel, ..opts[k] }) == opts[k]);
                assert(opts.update(k, opts[k]) =~= opts);
                assert(spec_apply_kv(opts, updated, key, sel).0 == opts);
                lemma_apply_lines_of(opts, true, k + 1);
            } else {
                lemma_apply_lines_of(opts, updated, k + 1);
            }
        }
    }
}

/// The option-file round trip: rendering an option set and applying
/// the rendered content back reproduces the same option set — every
/// selection survives — provided the keys are pairwise distinct and
/// the keys and selections are plain enough for the line format.
pub proof fn lemma_option_file_round_trip(opts: Seq<OptView>, updated: bool)
    requires
        spec_persist_wf(opts),
    ensures
        spec_apply_lines(opts, updated, spec_split(spec_render(opts), '\n')).0 == opts,
{
    lemma_render_split(opts);
    assert(spec_lines_of(opts).skip(0) =~= spec_lines_of(opts));
    lemma_apply_lines_of(opts, updated, 0);
}

proof fn lemma_first_key_bounds(opts: Seq<OptView>, key: Seq<char>)
    ensures
        -1 <= spec_first_key_index(opts, key) < opts.len(),
        spec_first_key_index(opts, key) >= 0 ==> opts[spec_first_key_index(opts, key)].key == key,
    decreases opts.len(),
{
    if opts.len() > 0 && opts[0].key != key {
        lemma_first_key_bounds(opts.drop_first(), key);
    }
}

/// Whether every selection is one of its option's enumerated legal
/// values — the shape a negotiated option set keeps for good.
pub open spec fn spec_selections_legal(opts: Seq<OptView>) -> bool {
    forall|i: int|
        0 <= i < opts.len() ==> spec_opt_has_value(#[trigger] opts[i], opts[i].selected)
}

/// A validated selection update keeps every selection legal: the one
/// option it may touch takes a value from its own enumerated set, and
/// every other option stands untouched.
pub proof fn lemma_apply_kv_keeps_selections_legal(
    opts: Seq<OptView>,
    updated: bool,
    key: Seq<char>,
    value: Seq<char>,
)
    requires
        spec_selections_legal(opts),
    ensures
        spec_selections_legal(spec_apply_kv(opts, updated, key, value).0),
{
    lemma_first_key_bounds(opts, key);
    let i = spec_first_key_index(opts, key);
    if i >= 0 && spec_opt_has_value(opts[i], value) {
        let after = spec_apply_kv(opts, updated, key, value).0;
        assert(after == opts.update(i, OptView { selected: value, ..opts[i] }));
        assert forall|j: int|
            0 <= j < after.len() implies spec_opt_has_value(
            #[trigger] after[j],
            after[j].selected,
        ) by {
            if j == i {
                assert(after[j].values == opts[i].values);
            } else {
                assert(after[j] == opts[j]);
            }
        }
    }
}

/// Reading a whole option file keeps every selection legal: each line
/// is one validated update.
pub proof fn lemma_apply_lines_keeps_selections_legal(
    opts: Seq<OptView>,
    updated: bool,
    lines: Seq<Seq<char>>,
)
    requires
        spec_selections_legal(opts),
    ensures
        spec_selections_legal(spec_apply_lines(opts, updated, lines).0),
    decreases lines.len(),
{
    if lines.len() > 0 && lines[0].len() > 0 {
        let pieces = spec_split(lines[0], '=');
        if pieces.len() >= 2 {
            match spec_first_token(pieces[1]) {
                None => {
                    lemma_apply_lines_keeps_selections_legal(opts, updated, lines.drop_first());
                },
                Some(tok) => {
                    lemma_apply_kv_keeps_selections_legal(opts, updated, pieces[0], tok);
                    let after = spec_apply_kv(opts, updated, pieces[0], tok);
                    lemma_apply_lines_keeps_selections_legal(
                        after.0,
                        after.1,
                        lines.drop_first(),
                    );
                },
            }
        } else {
            lemma_apply_lines_keeps_selections_legal(opts, updated, lines.drop_first());
        }
    }
}

/// A selection update whose key no option carries, or whose value lies
/// outside the matched option's enumerated values, changes nothing.
pub proof fn lemma_unknown_update_ignored(
    opts: Seq<OptView>,
    updated: bool,
    key: Seq<char>,
    value: Seq<char>,
)
    requires
        spec_first_key_index(opts, key) == -1 || !spec_opt_has_value(
            opts[spec_first_key_index(opts, key)],
            value,
        ),
    ensures
        spec_apply_kv(opts, updated, key, value) == (opts, updated),
{
}

} // verus!
