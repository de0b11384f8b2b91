use vstd::prelude::*;
use crate::text::{
    all_ascii, ascii_upper, is_ascii_char, chars_of, char_to_uppercase, is_white_space, is_whitespace_char, push_all, push_char,
    string_from_chars, unicode_uppercase,
};

verus! {

// ---------------------------------------------------------------------------
// Words and capitalisation
// ---------------------------------------------------------------------------

/// The maximal runs of non-white-space characters of `s`, in order: what
/// `str::split_whitespace` yields.
pub open spec fn words(s: Seq<char>) -> Seq<Seq<char>>
    decreases s.len(),
{
    if s.len() == 0 {
        seq![]
    } else {
        let w = words(s.drop_last());
        let c = s.last();
        if is_white_space(c) {
            w
        } else if s.len() >= 2 && !is_white_space(s[s.len() - 2]) {
            w.update(w.len() - 1, w.last().push(c))
        } else {
            w.push(seq![c])
        }
    }
}

/// A word with its first character replaced by its Unicode uppercase mapping.
pub open spec fn capitalize_word(w: Seq<char>) -> Seq<char> {
    if w.len() == 0 {
        seq![]
    } else {
        unicode_uppercase(w[0]) + w.drop_first()
    }
}

/// The words joined with single spaces.
pub open spec fn join_with_spaces(ws: Seq<Seq<char>>) -> Seq<char>
    decreases ws.len(),
{
    if ws.len() == 0 {
        seq![]
    } else if ws.len() == 1 {
        ws[0]
    } else {
        join_with_spaces(ws.drop_last()) + seq![' '] + ws.last()
    }
}

/// Every word capitalised, joined with single spaces.
pub open spec fn capitalized_words(s: Seq<char>) -> Seq<char> {
    join_with_spaces(words(s).map_values(|w: Seq<char>| capitalize_word(w)))
}

/// A word with its first character raised by the ASCII rule alone.
pub open spec fn capitalize_word_ascii(w: Seq<char>) -> Seq<char> {
    if w.len() == 0 {
        seq![]
    } else {
        seq![ascii_upper(w[0])] + w.drop_first()
    }
}

/// Every word capitalised by the ASCII rule, joined with single spaces: what
/// `capitalized_words` gives on ASCII text.
pub open spec fn ascii_capitalized_words(s: Seq<char>) -> Seq<char> {
    join_with_spaces(words(s).map_values(|w: Seq<char>| capitalize_word_ascii(w)))
}

proof fn lemma_words_shape(s: Seq<char>)
    ensures
        forall|k: int| 0 <= k < words(s).len() ==> #[trigger] words(s)[k].len() > 0,
        s.len() > 0 && !is_white_space(s.last()) ==> words(s).len() > 0,
    decreases s.len(),
{
    if s.len() > 0 {
        lemma_words_shape(s.drop_last());
        let w = words(s.drop_last());
        let c = s.last();
        if !is_white_space(c) && s.len() >= 2 && !is_white_space(s[s.len() - 2]) {
            assert(s.drop_last().last() == s[s.len() - 2]);
            assert(w.len() > 0);
            let w2 = w.update(w.len() - 1, w.last().push(c));
            assert forall|k: int| 0 <= k < w2.len() implies #[trigger] w2[k].len() > 0 by {
                if k < w.len() - 1 {
                    assert(w2[k] == w[k]);
                }
            }
        } else if !is_white_space(c) {
            let w2 = w.push(seq![c]);
            assert forall|k: int| 0 <= k < w2.len() implies #[trigger] w2[k].len() > 0 by {
                if k < w.len() {
                    assert(w2[k] == w[k]);
                }
            }
        }
    }
}

/// Capitalises every white-space separated word and joins the words with single
/// spaces (leading, trailing and repeated white space disappear).
pub fn capitalize_words(s: &str) -> (r: String)
    ensures
        r@ == capitalized_words(s@),
        all_ascii(s@) ==> r@ == ascii_capitalized_words(s@),
{
    let v = chars_of(s);
    let mut out = String::new();
    let mut prev_ws = true;
    let mut started = false;
    let mut i: usize = 0;
    proof {
        assert(v@.take(0) =~= seq![]);
        assert(words(seq![]).map_values(|w: Seq<char>| capitalize_word(w)) =~= seq![]);
        assert(words(seq![]).map_values(|w: Seq<char>| capitalize_word_ascii(w)) =~= seq![]);
    }
    while i < v.len()
        invariant
            i <= v.len(),
            v@ == s@,
            out@ == capitalized_words(v@.take(i as int)),
            all_ascii(v@) ==> out@ == ascii_capitalized_words(v@.take(i as int)),
            prev_ws == (i == 0 || is_white_space(v@[i - 1])),
            started == (words(v@.take(i as int)).len() > 0),
        decreases v.len() - i,
    {
        let c = v[i];
        let ghost p = v@.take(i as int);
        let ghost q = v@.take(i + 1);
        proof {
            assert(q.drop_last() =~= p);
            assert(q.last() == c);
            lemma_words_shape(p);
        }
        let ghost cap = |w: Seq<char>| capitalize_word(w);
        let ghost cap_a = |w: Seq<char>| capitalize_word_ascii(w);
        let ghost wp = words(p);
        let ghost mp = wp.map_values(cap);
        let ghost ma = wp.map_values(cap_a);
        if is_whitespace_char(c) {
            prev_ws = true;
        } else if !prev_ws {
            proof {
                assert(q[q.len() - 2] == v@[i - 1]);
                assert(p.last() == v@[i - 1]);
                assert(wp.len() > 0);
                let last = wp.last();
                assert(last.len() > 0);
                assert(words(q) == wp.update(wp.len() - 1, last.push(c)));
                assert(capitalize_word(last.push(c)) =~= capitalize_word(last).push(c));
                assert(words(q).map_values(cap) =~= mp.update(mp.len() - 1, mp.last().push(c)));
                let mq = words(q).map_values(cap);
                if mp.len() == 1 {
                    assert(join_with_spaces(mq) == mq[0]);
                } else {
                    assert(mq.drop_last() =~= mp.drop_last());
                    assert(join_with_spaces(mp) == join_with_spaces(mp.drop_last()) + seq![' ']
                        + mp.last());
                    assert(join_with_spaces(mq) =~= join_with_spaces(mp).push(c));
                }
                assert(capitalize_word_ascii(last.push(c)) =~= capitalize_word_ascii(last).push(c));
                assert(words(q).map_values(cap_a) =~= ma.update(ma.len() - 1, ma.last().push(c)));
                let aq = words(q).map_values(cap_a);
                if ma.len() == 1 {
                    assert(join_with_spaces(aq) == aq[0]);
                } else {
                    assert(aq.drop_last() =~= ma.drop_last());
                    assert(join_with_spaces(ma) == join_with_spaces(ma.drop_last()) + seq![' ']
                        + ma.last());
                    assert(join_with_spaces(aq) =~= join_with_spaces(ma).push(c));
                }
            }
            push_char(&mut out, c);
        } else {
            let up = char_to_uppercase(c);
            proof {
                assert(words(q) == wp.push(seq![c]));
                assert(capitalize_word(seq![c]) =~= unicode_uppercase(c));
                assert(words(q).map_values(cap) =~= mp.push(unicode_uppercase(c)));
                let mq = words(q).map_values(cap);
                assert(mq.drop_last() =~= mp);
                assert(capitalize_word_ascii(seq![c]) =~= seq![ascii_upper(c)]);
                assert(words(q).map_values(cap_a) =~= ma.push(seq![ascii_upper(c)]));
                let aq = words(q).map_values(cap_a);
                assert(aq.drop_last() =~= ma);
                if all_ascii(v@) {
                    assert(is_ascii_char(v@[i as int]));
                    assert(up@ == seq![ascii_upper(c)]);
                }
            }
            if started {
                push_char(&mut out, ' ');
            }
            push_all(&mut out, &up);
            prev_ws = false;
            started = true;
        }
        i = i + 1;
    }
    proof { assert(v@.take(v.len() as int) =~= v@); }
    out
}

} // verus!

verus! {

// ---------------------------------------------------------------------------
// Model file names
// ---------------------------------------------------------------------------

/// `-` and `_` turned into spaces (`.replace("-", " ").replace("_", " ")`).
pub open spec fn dashes_to_spaces(s: Seq<char>) -> Seq<char> {
    s.map_values(|c: char| if c == '-' || c == '_' { ' ' } else { c })
}

/// The name shown for a vendor folder or a model file stem.
pub open spec fn display_name_spec(s: Seq<char>) -> Seq<char> {
    capitalized_words(dashes_to_spaces(s))
}

/// Replaces every `-` and `_` by a space.
pub fn dashes_to_spaces_exec(s: &str) -> (r: String)
    ensures
        r@ == dashes_to_spaces(s@),
{
    let v = chars_of(s);
    let mut out: Vec<char> = Vec::new();
    let mut i: usize = 0;
    while i < v.len()
        invariant
            i <= v.len(),
            v@ == s@,
            out@ == dashes_to_spaces(v@.take(i as int)),
        decreases v.len() - i,
    {
        let c = v[i];
        let d = if c == '-' || c == '_' { ' ' } else { c };
        out.push(d);
        proof {
            assert(dashes_to_spaces(v@.take(i + 1)) =~= dashes_to_spaces(v@.take(i as int)).push(d));
        }
        i = i + 1;
    }
    proof { assert(v@.take(v.len() as int) =~= v@); }
    string_from_chars(&out)
}

/// The display name of a vendor folder or model file stem: dashes and
/// underscores become spaces and each word is capitalised.
pub fn display_name(s: &str) -> (r: String)
    ensures
        r@ == display_name_spec(s@),
        all_ascii(s@) ==> r@ == ascii_capitalized_words(dashes_to_spaces(s@)),
{
    let spaced = dashes_to_spaces_exec(s);
    proof {
        if all_ascii(s@) {
            let d = dashes_to_spaces(s@);
            assert forall|i: int| 0 <= i < d.len() implies #[trigger] is_ascii_char(d[i]) by {
                assert(is_ascii_char(s@[i]));
            }
        }
    }
    capitalize_words(spaced.as_str())
}

/// Index of the last occurrence of `c` in `s`, or -1.
pub open spec fn last_index_of(s: Seq<char>, c: char) -> int
    decreases s.len(),
{
    if s.len() == 0 {
        -1
    } else if s.last() == c {
        s.len() - 1
    } else {
        last_index_of(s.drop_last(), c)
    }
}

/// The extension of a file name as `Path::extension` defines it: the text after
/// the last `.`, except for names without a `.`, names whose only `.` is the
/// first character, and `..`.
pub open spec fn extension_spec(name: Seq<char>) -> Option<Seq<char>> {
    let k = last_index_of(name, '.');
    if name == seq!['.', '.'] || k <= 0 {
        None
    } else {
        Some(name.subrange(k + 1, name.len() as int))
    }
}

/// The suffix removed from model file names.
pub open spec fn glb_suffix() -> Seq<char> {
    seq!['.', 'g', 'l', 'b']
}

/// `s.trim_end_matches(".glb")`: every trailing `.glb` removed.
pub open spec fn trim_glb(s: Seq<char>) -> Seq<char>
    decreases s.len(),
{
    if s.len() >= 4 && s.subrange(s.len() - 4, s.len() as int) == glb_suffix() {
        trim_glb(s.subrange(0, s.len() - 4))
    } else {
        s
    }
}

proof fn lemma_trim_glb_prefix(s: Seq<char>)
    ensures
        trim_glb(s).len() <= s.len(),
        trim_glb(s) == s.subrange(0, trim_glb(s).len() as int),
    decreases s.len(),
{
    if s.len() >= 4 && s.subrange(s.len() - 4, s.len() as int) == glb_suffix() {
        let p = s.subrange(0, s.len() - 4);
        lemma_trim_glb_prefix(p);
        assert(p.subrange(0, trim_glb(p).len() as int) =~= s.subrange(0, trim_glb(p).len() as int));
    } else {
        assert(s.subrange(0, s.len() as int) =~= s);
    }
}

proof fn lemma_last_index_is(s: Seq<char>, c: char, k: int)
    requires
        -1 <= k < s.len(),
        k >= 0 ==> s[k] == c,
        forall|j: int| k < j < s.len() ==> s[j] != c,
    ensures
        last_index_of(s, c) == k,
    decreases s.len(),
{
    if s.len() > 0 && k < s.len() - 1 {
        assert(s.last() != c);
        lemma_last_index_is(s.drop_last(), c, k);
    }
}

/// Whether `Path::extension` of the file name is exactly `glb`.
pub fn has_glb_extension(name: &str) -> (b: bool)
    ensures
        b == (extension_spec(name@) == Some(seq!['g', 'l', 'b'])),
{
    let v = chars_of(name);
    let n = v.len();
    let mut k: usize = n;
    while k > 0 && v[k - 1] != '.'
        invariant
            k <= n == v.len(),
            v@ == name@,
            forall|j: int| k <= j < n ==> v@[j] != '.',
        decreases k,
    {
        k = k - 1;
    }
    let found = k > 0;
    let ghost idx: int = if found { k - 1 } else { -1 };
    proof {
        lemma_last_index_is(v@, '.', idx);
    }
    if !found || k - 1 == 0 {
        return false;
    }
    let dot = k - 1;
    if n == 2 && v[0] == '.' && v[1] == '.' {
        proof { assert(v@ =~= seq!['.', '.']); }
        return false;
    }
    proof {
        assert(v@ != seq!['.', '.']) by {
            if v@ == seq!['.', '.'] {
                assert(v@.len() == 2 && v@[0] == '.' && v@[1] == '.');
            }
        }
    }
    let ext_ok = n - dot == 4 && v[dot + 1] == 'g' && v[dot + 2] == 'l' && v[dot + 3] == 'b';
    proof {
        let ext = v@.subrange(dot + 1, n as int);
        if ext_ok {
            assert(ext =~= seq!['g', 'l', 'b']);
        } else {
            if ext == seq!['g', 'l', 'b'] {
                assert(ext.len() == 3);
                assert(ext[0] == v@[dot + 1]);
                assert(ext[1] == v@[dot + 2]);
                assert(ext[2] == v@[dot + 3]);
            }
        }
    }
    ext_ok
}

/// Removes every trailing `.glb` from a name.
pub fn trim_glb_suffixes(name: &str) -> (r: String)
    ensures
        r@ == trim_glb(name@),
{
    let v = chars_of(name);
    let mut end: usize = v.len();
    proof { assert(v@.subrange(0, v@.len() as int) =~= v@); }
    while end >= 4 && v[end - 4] == '.' && v[end - 3] == 'g' && v[end - 2] == 'l' && v[end - 1]
        == 'b'
        invariant
            end <= v.len(),
            v@ == name@,
            trim_glb(v@) == trim_glb(v@.subrange(0, end as int)),
        decreases end,
    {
        proof {
            let s = v@.subrange(0, end as int);
            assert(s.subrange(s.len() - 4, s.len() as int) =~= glb_suffix());
            assert(s.subrange(0, s.len() - 4) =~= v@.subrange(0, end - 4));
        }
        end = end - 4;
    }
    proof {
        let s = v@.subrange(0, end as int);
        if s.len() >= 4 && s.subrange(s.len() - 4, s.len() as int) == glb_suffix() {
            assert(s.subrange(s.len() - 4, s.len() as int)[0] == v@[end - 4]);
            assert(s.subrange(s.len() - 4, s.len() as int)[1] == v@[end - 3]);
            assert(s.subrange(s.len() - 4, s.len() as int)[2] == v@[end - 2]);
            assert(s.subrange(s.len() - 4, s.len() as int)[3] == v@[end - 1]);
        }
        assert(v@.subrange(0, v@.len() as int) =~= v@);
    }
    let mut out: Vec<char> = Vec::new();
    let mut i: usize = 0;
    while i < end
        invariant
            i <= end <= v.len(),
            out@ == v@.subrange(0, i as int),
        decreases end - i,
    {
        out.push(v[i]);
        proof { assert(v@.subrange(0, i + 1) =~= v@.subrange(0, i as int).push(v@[i as int])); }
        i = i + 1;
    }
    string_from_chars(&out)
}

} // verus!

verus! {

// ---------------------------------------------------------------------------
// Vendors and their models
// ---------------------------------------------------------------------------

/// A 3D model file offered for a node type.
#[derive(Clone, Debug)]
pub struct ModelInfo {
    /// File name without its `.glb` suffix, e.g. `blob-router`.
    pub file_name: String,
    /// Name shown to the user, e.g. `Blob Router`.
    pub display_name: String,
}

/// A vendor folder with the models found in it.
#[derive(Clone, Debug)]
pub struct VendorInfo {
    pub name: String,
    pub display_name: String,
    pub has_icon: bool,
    pub models: Vec<ModelInfo>,
    /// False when the folder holds no model.
    pub is_available: bool,
}

/// All vendors offered for one node type.
#[derive(Clone, Debug)]
pub struct VendorListResponse {
    pub node_type: String,
    pub vendors: Vec<VendorInfo>,
}

/// What was found in one vendor folder: its name (`None` when the name is not
/// valid UTF-8), the names of the files in it, in directory order, and whether
/// the vendor has an icon.
#[derive(Clone, Debug)]
pub struct VendorDirectory {
    pub name: Option<String>,
    pub file_names: Vec<String>,
    pub has_icon: bool,
}

pub ghost struct ModelView {
    pub file_name: Seq<char>,
    pub display_name: Seq<char>,
}

pub ghost struct VendorView {
    pub name: Seq<char>,
    pub display_name: Seq<char>,
    pub has_icon: bool,
    pub models: Seq<ModelView>,
    pub is_available: bool,
}

impl View for ModelInfo {
    type V = ModelView;

    open spec fn view(&self) -> ModelView {
        ModelView { file_name: self.file_name@, display_name: self.display_name@ }
    }
}

impl View for VendorInfo {
    type V = VendorView;

    open spec fn view(&self) -> VendorView {
        VendorView {
            name: self.name@,
            display_name: self.display_name@,
            has_icon: self.has_icon,
            models: self.models@.map_values(|m: ModelInfo| m@),
            is_available: self.is_available,
        }
    }
}

pub open spec fn vendor_views(v: Seq<VendorInfo>) -> Seq<VendorView> {
    v.map_values(|x: VendorInfo| x@)
}

pub open spec fn string_views(v: Seq<String>) -> Seq<Seq<char>> {
    v.map_values(|s: String| s@)
}

/// The model a file stands for, if its extension is `glb`.
pub open spec fn model_for_file(name: Seq<char>) -> Option<ModelView> {
    if extension_spec(name) == Some(seq!['g', 'l', 'b']) {
        Some(ModelView { file_name: trim_glb(name), display_name: display_name_spec(trim_glb(name)) })
    } else {
        None
    }
}

/// The models of a vendor folder: one per `.glb` file, in directory order.
pub open spec fn models_for_files(files: Seq<Seq<char>>) -> Seq<ModelView>
    decreases files.len(),
{
    if files.len() == 0 {
        seq![]
    } else {
        let prev = models_for_files(files.drop_last());
        match model_for_file(files.last()) {
            Some(m) => prev.push(m),
            None => prev,
        }
    }
}

/// The name used for a vendor folder: its own, or `unknown`.
pub open spec fn vendor_name_spec(name: Option<Seq<char>>) -> Seq<char> {
    match name {
        Some(n) => n,
        None => "unknown"@,
    }
}

/// What the vendor list says of one folder.
pub open spec fn vendor_for_directory(name: Option<Seq<char>>, files: Seq<Seq<char>>, has_icon: bool) -> VendorView {
    let n = vendor_name_spec(name);
    let models = models_for_files(files);
    VendorView {
        name: n,
        display_name: display_name_spec(n),
        has_icon,
        models,
        is_available: models.len() > 0,
    }
}

/// The model for a file in a vendor folder, if it is a `.glb` file.
pub fn model_info_for_file(file_name: &str) -> (r: Option<ModelInfo>)
    ensures
        r matches Some(m) ==> model_for_file(file_name@) == Some(m@),
        r is None ==> model_for_file(file_name@) is None,
        all_ascii(file_name@) ==> (r matches Some(m) ==> m.display_name@ == ascii_capitalized_words(
            dashes_to_spaces(trim_glb(file_name@)),
        )),
{
    if has_glb_extension(file_name) {
        let stem = trim_glb_suffixes(file_name);
        proof {
            lemma_trim_glb_prefix(file_name@);
            if all_ascii(file_name@) {
                let t = trim_glb(file_name@);
                assert forall|i: int| 0 <= i < t.len() implies #[trigger] is_ascii_char(t[i]) by {
                    assert(t[i] == file_name@[i]);
                }
            }
        }
        let shown = display_name(stem.as_str());
        Some(ModelInfo { file_name: stem, display_name: shown })
    } else {
        None
    }
}

/// The name used for a vendor folder (`unknown` when the name is not UTF-8).
pub fn vendor_name(name: &Option<String>) -> (r: String)
    ensures
        r@ == vendor_name_spec(match name { Some(n) => Some(n@), None => None }),
{
    match name {
        Some(n) => n.clone(),
        None => "unknown".to_owned(),
    }
}

/// Builds the vendor entry for one folder.
pub fn vendor_info_for_directory(dir: &VendorDirectory) -> (r: VendorInfo)
    ensures
        r@ == vendor_for_directory(
            match dir.name { Some(n) => Some(n@), None => None },
            string_views(dir.file_names@),
            dir.has_icon,
        ),
{
    let name = vendor_name(&dir.name);
    let mut models: Vec<ModelInfo> = Vec::new();
    let mut i: usize = 0;
    let ghost files = string_views(dir.file_names@);
    while i < dir.file_names.len()
        invariant
            i <= dir.file_names.len(),
            files == string_views(dir.file_names@),
            models@.map_values(|m: ModelInfo| m@) == models_for_files(files.take(i as int)),
        decreases dir.file_names.len() - i,
    {
        let ghost before = models@;
        proof {
            assert(files.take(i + 1).drop_last() =~= files.take(i as int));
            assert(files.take(i + 1).last() == dir.file_names@[i as int]@);
        }
        match model_info_for_file(dir.file_names[i].as_str()) {
            Some(m) => {
                models.push(m);
                proof {
                    assert(models@.map_values(|m: ModelInfo| m@) =~= before.map_values(
                        |m: ModelInfo| m@,
                    ).push(m@));
                }
            },
            None => {},
        }
        i = i + 1;
    }
    proof { assert(files.take(dir.file_names.len() as int) =~= files); }
    let shown = display_name(name.as_str());
    let available = models.len() > 0;
    VendorInfo { name, display_name: shown, has_icon: dir.has_icon, models, is_available: available }
}

} // verus!

verus! {

// ---------------------------------------------------------------------------
// Vendor order: `generic` first, then vendors with models, then by display name
// ---------------------------------------------------------------------------

/// Lexicographic order on character sequences by code point (the order of
/// `String`'s `Ord`, since UTF-8 keeps code point order).
pub open spec fn chars_less(a: Seq<char>, b: Seq<char>) -> bool
    decreases a.len(),
{
    if a.len() == 0 {
        b.len() > 0
    } else if b.len() == 0 {
        false
    } else if a[0] != b[0] {
        (a[0] as u32) < (b[0] as u32)
    } else {
        chars_less(a.drop_first(), b.drop_first())
    }
}

pub open spec fn generic_vendor() -> Seq<char> {
    seq!['g', 'e', 'n', 'e', 'r', 'i', 'c']
}

/// Whether vendor `a` is listed strictly before vendor `b`.
pub open spec fn vendor_before(a: VendorView, b: VendorView) -> bool {
    let ga = a.name == generic_vendor();
    let gb = b.name == generic_vendor();
    if ga != gb {
        ga
    } else if a.is_available != b.is_available {
        a.is_available
    } else {
        chars_less(a.display_name, b.display_name)
    }
}

/// Where a stable insertion places `x` in the sorted sequence: after every
/// element that `x` does not come strictly before.
pub open spec fn insertion_index(sorted: Seq<VendorView>, x: VendorView) -> int
    decreases sorted.len(),
{
    if sorted.len() == 0 {
        0
    } else if vendor_before(x, sorted[0]) {
        0
    } else {
        1 + insertion_index(sorted.drop_first(), x)
    }
}

/// The vendors in list order; vendors that tie keep their original order.
pub open spec fn sort_vendor_views(s: Seq<VendorView>) -> Seq<VendorView>
    decreases s.len(),
{
    if s.len() == 0 {
        seq![]
    } else {
        let r = sort_vendor_views(s.drop_last());
        r.insert(insertion_index(r, s.last()), s.last())
    }
}

proof fn lemma_insertion_index(sorted: Seq<VendorView>, x: VendorView, j: int)
    requires
        0 <= j <= sorted.len(),
        forall|k: int| 0 <= k < j ==> !vendor_before(x, #[trigger] sorted[k]),
        j < sorted.len() ==> vendor_before(x, sorted[j]),
    ensures
        insertion_index(sorted, x) == j,
    decreases sorted.len(),
{
    if sorted.len() > 0 && j > 0 {
        assert(!vendor_before(x, sorted[0]));
        let rest = sorted.drop_first();
        assert forall|k: int| 0 <= k < j - 1 implies !vendor_before(x, #[trigger] rest[k]) by {
            assert(rest[k] == sorted[k + 1]);
        }
        if j - 1 < rest.len() {
            assert(rest[j - 1] == sorted[j]);
        }
        lemma_insertion_index(rest, x, j - 1);
    }
}

/// Compares two strings in `String` order (strictly less).
pub fn str_less(a: &str, b: &str) -> (r: bool)
    ensures
        r == chars_less(a@, b@),
{
    let va = chars_of(a);
    let vb = chars_of(b);
    let mut i: usize = 0;
    proof {
        assert(a@.skip(0) =~= a@);
        assert(b@.skip(0) =~= b@);
    }
    while i < va.len() && i < vb.len() && va[i] == vb[i]
        invariant
            i <= va.len(),
            i <= vb.len(),
            va@ == a@,
            vb@ == b@,
            chars_less(a@, b@) == chars_less(a@.skip(i as int), b@.skip(i as int)),
        decreases va.len() - i,
    {
        proof {
            let sa = a@.skip(i as int);
            let sb = b@.skip(i as int);
            assert(sa[0] == va@[i as int]);
            assert(sb[0] == vb@[i as int]);
            assert(sa.drop_first() =~= a@.skip(i + 1));
            assert(sb.drop_first() =~= b@.skip(i + 1));
        }
        i = i + 1;
    }
    proof {
        let sa = a@.skip(i as int);
        let sb = b@.skip(i as int);
        if i < va.len() {
            assert(sa[0] == va@[i as int]);
        }
        if i < vb.len() {
            assert(sb[0] == vb@[i as int]);
        }
    }
    if i == va.len() {
        i < vb.len()
    } else if i == vb.len() {
        false
    } else {
        (va[i] as u32) < (vb[i] as u32)
    }
}

/// Whether a vendor name is `generic`.
pub fn is_generic_vendor(name: &str) -> (b: bool)
    ensures
        b == (name@ == generic_vendor()),
{
    let v = chars_of(name);
    let r = v.len() == 7 && v[0] == 'g' && v[1] == 'e' && v[2] == 'n' && v[3] == 'e' && v[4] == 'r'
        && v[5] == 'i' && v[6] == 'c';
    proof {
        if r {
            assert(v@ =~= generic_vendor());
        } else if v@ == generic_vendor() {
            assert(v@[0] == 'g' && v@[1] == 'e' && v@[2] == 'n' && v@[3] == 'e');
            assert(v@[4] == 'r' && v@[5] == 'i' && v@[6] == 'c');
        }
    }
    r
}

/// Whether vendor `a` is listed strictly before vendor `b`.
pub fn vendor_listed_before(a: &VendorInfo, b: &VendorInfo) -> (r: bool)
    ensures
        r == vendor_before(a@, b@),
{
    let ga = is_generic_vendor(a.name.as_str());
    let gb = is_generic_vendor(b.name.as_str());
    if ga != gb {
        ga
    } else if a.is_available != b.is_available {
        a.is_available
    } else {
        str_less(a.display_name.as_str(), b.display_name.as_str())
    }
}

/// Sorts vendors for display: `generic` first, then vendors that have models,
/// then the rest, each group by display name; ties keep their order.
pub fn sort_vendors(v: Vec<VendorInfo>) -> (r: Vec<VendorInfo>)
    ensures
        vendor_views(r@) == sort_vendor_views(vendor_views(v@)),
{
    let ghost input = vendor_views(v@);
    let mut rest = v;
    let mut out: Vec<VendorInfo> = Vec::new();
    let ghost mut i: int = 0;
    proof { assert(input.take(0) =~= seq![]); }
    while rest.len() > 0
        invariant
            0 <= i <= input.len(),
            input.len() == i + rest@.len(),
            vendor_views(rest@) == input.skip(i),
            vendor_views(out@) == sort_vendor_views(input.take(i)),
        decreases rest.len(),
    {
        let ghost old_rest = rest@;
        let x = rest.remove(0);
        let ghost xv = x@;
        proof {
            assert(vendor_views(old_rest)[0] == old_rest[0]@);
            assert(input.skip(i)[0] == input[i]);
            assert(xv == input[i]);
            assert(input.take(i + 1).drop_last() =~= input.take(i));
            assert(input.take(i + 1).last() == xv);
            assert(rest@ =~= old_rest.remove(0));
            assert forall|k: int| 0 <= k < rest@.len() implies #[trigger] vendor_views(rest@)[k]
                == input.skip(i + 1)[k] by {
                assert(rest@[k] == old_rest[k + 1]);
                assert(vendor_views(old_rest)[k + 1] == old_rest[k + 1]@);
                assert(input.skip(i)[k + 1] == input[i + k + 1]);
            }
            assert(vendor_views(rest@) =~= input.skip(i + 1));
        }
        let mut j: usize = 0;
        while j < out.len() && !vendor_listed_before(&x, &out[j])
            invariant
                j <= out.len(),
                xv == x@,
                forall|k: int| 0 <= k < j ==> !vendor_before(xv, #[trigger] vendor_views(out@)[k]),
            decreases out.len() - j,
        {
            assert(vendor_views(out@)[j as int] == out@[j as int]@);
            j = j + 1;
        }
        let ghost sorted = vendor_views(out@);
        proof {
            if j < out.len() {
                assert(sorted[j as int] == out@[j as int]@);
            }
            lemma_insertion_index(sorted, xv, j as int);
        }
        out.insert(j, x);
        proof {
            assert(vendor_views(out@) =~= sorted.insert(j as int, xv));
            i = i + 1;
        }
    }
    proof { assert(input.take(i) =~= input); }
    out
}

} // verus!

verus! {

pub open spec fn directory_vendor(d: VendorDirectory) -> VendorView {
    vendor_for_directory(
        match d.name { Some(n) => Some(n@), None => None },
        string_views(d.file_names@),
        d.has_icon,
    )
}

/// The vendor list for a node type, built from its vendor folders (given in
/// directory order): one vendor per folder, listed in vendor order.
pub fn vendor_list(node_type: String, dirs: Vec<VendorDirectory>) -> (r: VendorListResponse)
    ensures
        r.node_type@ == node_type@,
        vendor_views(r.vendors@) == sort_vendor_views(
            dirs@.map_values(|d: VendorDirectory| directory_vendor(d)),
        ),
{
    let ghost dv = dirs@.map_values(|d: VendorDirectory| directory_vendor(d));
    let mut vendors: Vec<VendorInfo> = Vec::new();
    let mut i: usize = 0;
    while i < dirs.len()
        invariant
            i <= dirs.len(),
            dv == dirs@.map_values(|d: VendorDirectory| directory_vendor(d)),
            vendor_views(vendors@) == dv.take(i as int),
        decreases dirs.len() - i,
    {
        let info = vendor_info_for_directory(&dirs[i]);
        let ghost before = vendors@;
        vendors.push(info);
        proof {
            assert(dv[i as int] == directory_vendor(dirs@[i as int]));
            assert(vendor_views(vendors@) =~= vendor_views(before).push(info@));
            assert(dv.take(i + 1) =~= dv.take(i as int).push(dv[i as int]));
        }
        i = i + 1;
    }
    proof { assert(dv.take(dirs.len() as int) =~= dv); }
    let sorted = sort_vendors(vendors);
    VendorListResponse { node_type, vendors: sorted }
}

/// Folder that holds the vendor folders of a node type: `public/models/{node_type}`.
pub fn models_directory(node_type: &str) -> (r: String)
    ensures
        r@ == "public/models/"@ + node_type@,
{
    let mut r = "public/models/".to_owned();
    crate::text::push_str(&mut r, node_type);
    r
}

/// Icon file of a vendor: `public/icons/vendors/{vendor}.svg`.
pub fn vendor_icon_path(vendor: &str) -> (r: String)
    ensures
        r@ == "public/icons/vendors/"@ + vendor@ + ".svg"@,
{
    let mut r = "public/icons/vendors/".to_owned();
    crate::text::push_str(&mut r, vendor);
    crate::text::push_str(&mut r, ".svg");
    r
}

} // verus!

verus! {

// ---------------------------------------------------------------------------
// Laws of the vendor order
// ---------------------------------------------------------------------------

/// No vendor is listed after one it comes strictly before.
pub open spec fn vendors_in_order(s: Seq<VendorView>) -> bool {
    forall|i: int, j: int| 0 <= i < j < s.len() ==> !vendor_before(#[trigger] s[j], #[trigger] s[i])
}

proof fn lemma_chars_less_irreflexive(a: Seq<char>)
    ensures
        !chars_less(a, a),
    decreases a.len(),
{
    if a.len() > 0 {
        lemma_chars_less_irreflexive(a.drop_first());
    }
}

proof fn lemma_chars_less_transitive(a: Seq<char>, b: Seq<char>, c: Seq<char>)
    requires
        chars_less(a, b),
        chars_less(b, c),
    ensures
        chars_less(a, c),
    decreases a.len(),
{
    if a.len() > 0 && b.len() > 0 && c.len() > 0 && a[0] == b[0] && b[0] == c[0] {
        lemma_chars_less_transitive(a.drop_first(), b.drop_first(), c.drop_first());
    }
}

proof fn lemma_vendor_before_irreflexive(a: VendorView)
    ensures
        !vendor_before(a, a),
{
    lemma_chars_less_irreflexive(a.display_name);
}

proof fn lemma_vendor_before_transitive(a: VendorView, b: VendorView, c: VendorView)
    requires
        vendor_before(a, b),
        vendor_before(b, c),
    ensures
        vendor_before(a, c),
{
    if (a.name == generic_vendor()) == (b.name == generic_vendor())
        && (b.name == generic_vendor()) == (c.name == generic_vendor())
        && a.is_available == b.is_available && b.is_available == c.is_available {
        lemma_chars_less_transitive(a.display_name, b.display_name, c.display_name);
    }
}

proof fn lemma_insertion_index_bounds(sorted: Seq<VendorView>, x: VendorView)
    ensures
        0 <= insertion_index(sorted, x) <= sorted.len(),
        forall|k: int| 0 <= k < insertion_index(sorted, x) ==> !vendor_before(x, #[trigger] sorted[k]),
        insertion_index(sorted, x) < sorted.len() ==> vendor_before(x, sorted[insertion_index(sorted, x)]),
    decreases sorted.len(),
{
    if sorted.len() > 0 && !vendor_before(x, sorted[0]) {
        let rest = sorted.drop_first();
        lemma_insertion_index_bounds(rest, x);
        let p = insertion_index(sorted, x);
        assert forall|k: int| 0 <= k < p implies !vendor_before(x, #[trigger] sorted[k]) by {
            if k > 0 {
                assert(sorted[k] == rest[k - 1]);
            }
        }
        if p < sorted.len() {
            assert(sorted[p] == rest[p - 1]);
        }
    }
}

proof fn lemma_sort_in_order(s: Seq<VendorView>)
    ensures
        vendors_in_order(sort_vendor_views(s)),
        sort_vendor_views(s).to_multiset() == s.to_multiset(),
        sort_vendor_views(s).len() == s.len(),
    decreases s.len(),
{
    broadcast use vstd::seq_lib::to_multiset_insert, vstd::seq_lib::to_multiset_build;

    if s.len() > 0 {
        let prev = s.drop_last();
        lemma_sort_in_order(prev);
        let r = sort_vendor_views(prev);
        let x = s.last();
        lemma_insertion_index_bounds(r, x);
        let p = insertion_index(r, x);
        let out = r.insert(p, x);
        assert(out == sort_vendor_views(s));
        assert forall|i: int, j: int| 0 <= i < j < out.len() implies !vendor_before(
            #[trigger] out[j],
            #[trigger] out[i],
        ) by {
            if j < p {
                assert(out[i] == r[i] && out[j] == r[j]);
            } else if j == p {
                assert(out[i] == r[i]);
            } else if i == p {
                assert(out[j] == r[j - 1]);
                if vendor_before(r[j - 1], x) {
                    lemma_vendor_before_transitive(r[j - 1], x, r[p]);
                    if j - 1 == p {
                        lemma_vendor_before_irreflexive(r[p]);
                    } else {
                        assert(!vendor_before(r[j - 1], r[p]));
                    }
                }
            } else if i < p {
                assert(out[i] == r[i] && out[j] == r[j - 1]);
            } else {
                assert(out[i] == r[i - 1] && out[j] == r[j - 1]);
            }
        }
        assert(s =~= prev.push(x));
        assert(out.to_multiset() == r.to_multiset().insert(x));
        assert(prev.push(x).to_multiset() == prev.to_multiset().insert(x));
    } else {
        assert(s =~= seq![]);
        assert(sort_vendor_views(s) =~= s);
    }
}

/// Law: the vendor list is in vendor order (`generic` first, then vendors with
/// models, then by display name) and holds exactly one entry per vendor folder.
pub proof fn law_vendor_list_order(s: Seq<VendorView>)
    ensures
        vendors_in_order(sort_vendor_views(s)),
        sort_vendor_views(s).to_multiset() == s.to_multiset(),
{
    lemma_sort_in_order(s);
}

/// Law: a vendor named `generic` is listed before every other vendor, and a
/// vendor with models before every vendor without one (`generic` aside).
pub proof fn law_vendor_list_groups(s: Seq<VendorView>, i: int, j: int)
    requires
        0 <= i < j < sort_vendor_views(s).len(),
    ensures
        sort_vendor_views(s)[j].name == generic_vendor() ==> sort_vendor_views(s)[i].name == generic_vendor(),
        sort_vendor_views(s)[i].name != generic_vendor() && sort_vendor_views(s)[j].name != generic_vendor()
            && sort_vendor_views(s)[j].is_available ==> sort_vendor_views(s)[i].is_available,
{
    lemma_sort_in_order(s);
    let r = sort_vendor_views(s);
    assert(!vendor_before(r[j], r[i]));
}


/// Law: within each group of the vendor list (`generic` or not, with models or
/// without), vendors come in order of display name: a later vendor's display
/// name is never strictly before an earlier one's.
pub proof fn law_vendor_list_by_name(s: Seq<VendorView>, i: int, j: int)
    requires
        0 <= i < j < sort_vendor_views(s).len(),
        (sort_vendor_views(s)[i].name == generic_vendor()) == (sort_vendor_views(s)[j].name
            == generic_vendor()),
        sort_vendor_views(s)[i].is_available == sort_vendor_views(s)[j].is_available,
    ensures
        !chars_less(sort_vendor_views(s)[j].display_name, sort_vendor_views(s)[i].display_name),
{
    lemma_sort_in_order(s);
    let r = sort_vendor_views(s);
    assert(!vendor_before(r[j], r[i]));
}


/// `a` comes strictly before `b` at position `k`: they agree on their first `k`
/// characters, and there `a` ends while `b` goes on, or `a` has the smaller
/// character.
pub open spec fn less_at(a: Seq<char>, b: Seq<char>, k: int) -> bool {
    &&& 0 <= k <= a.len()
    &&& k <= b.len()
    &&& a.take(k) == b.take(k)
    &&& ((k == a.len() && k < b.len()) || (k < a.len() && k < b.len() && (a[k] as u32) < (b[k] as u32)))
}

/// Law: vendor names are compared in string order: `a` is before `b` exactly
/// when, at the first place where they differ, `a` has the smaller character or
/// has ended.
pub proof fn law_names_in_string_order(a: Seq<char>, b: Seq<char>)
    ensures
        chars_less(a, b) <==> exists|k: int| less_at(a, b, k),
    decreases a.len(),
{
    if a.len() == 0 {
        if b.len() > 0 {
            assert(a.take(0) =~= b.take(0));
            assert(less_at(a, b, 0));
        }
    } else if b.len() == 0 {
    } else if a[0] != b[0] {
        if (a[0] as u32) < (b[0] as u32) {
            assert(a.take(0) =~= b.take(0));
            assert(less_at(a, b, 0));
        }
        assert forall|k: int| !less_at(a, b, k) || (k == 0 && (a[0] as u32) < (b[0] as u32)) by {
            if less_at(a, b, k) && k > 0 {
                assert(a.take(k)[0] == b.take(k)[0]);
            }
        }
    } else {
        let a1 = a.drop_first();
        let b1 = b.drop_first();
        law_names_in_string_order(a1, b1);
        if chars_less(a1, b1) {
            let k1 = choose|k: int| less_at(a1, b1, k);
            assert(a.take(k1 + 1) =~= seq![a[0]] + a1.take(k1));
            assert(b.take(k1 + 1) =~= seq![b[0]] + b1.take(k1));
            assert(less_at(a, b, k1 + 1));
        }
        assert forall|k: int| less_at(a, b, k) implies less_at(a1, b1, k - 1) by {
            assert(k >= 1);
            assert(a1.take(k - 1) =~= a.take(k).drop_first());
            assert(b1.take(k - 1) =~= b.take(k).drop_first());
            if k < a.len() && k < b.len() {
                assert(a1[k - 1] == a[k]);
                assert(b1[k - 1] == b[k]);
            }
        }
    }
}


/// Law: a vendor folder offers one model per file whose extension is `glb`, in
/// directory order, named after the file without its `.glb` suffix; its vendor
/// entry is named after the folder (`unknown` when the name is not UTF-8), and
/// is available exactly when it has a model.
pub proof fn law_vendor_folder_models(files: Seq<Seq<char>>, f: Seq<char>, name: Option<Seq<char>>, has_icon: bool)
    ensures
        models_for_files(Seq::<Seq<char>>::empty()) == Seq::<ModelView>::empty(),
        extension_spec(f) == Some(seq!['g', 'l', 'b']) ==> models_for_files(files.push(f)) == models_for_files(
            files,
        ).push(ModelView { file_name: trim_glb(f), display_name: display_name_spec(trim_glb(f)) }),
        extension_spec(f) != Some(seq!['g', 'l', 'b']) ==> models_for_files(files.push(f))
            == models_for_files(files),
        ({
            let v = vendor_for_directory(name, files, has_icon);
            &&& v.name == (if name is Some { name->0 } else { "unknown"@ })
            &&& v.display_name == display_name_spec(v.name)
            &&& v.models == models_for_files(files)
            &&& v.has_icon == has_icon
            &&& v.is_available == (models_for_files(files).len() > 0)
        }),
{
    assert(files.push(f).drop_last() =~= files);
}

/// Law: removing `.glb` suffixes leaves a prefix of the name that does not end
/// in `.glb`, shorter by a multiple of four characters (whole `.glb`s).
pub proof fn law_trim_glb(s: Seq<char>)
    ensures
        trim_glb(s).len() <= s.len(),
        trim_glb(s) == s.subrange(0, trim_glb(s).len() as int),
        !(trim_glb(s).len() >= 4 && trim_glb(s).subrange(trim_glb(s).len() - 4, trim_glb(s).len() as int)
            == glb_suffix()),
        (s.len() - trim_glb(s).len()) % 4 == 0,
    decreases s.len(),
{
    lemma_trim_glb_prefix(s);
    if s.len() >= 4 && s.subrange(s.len() - 4, s.len() as int) == glb_suffix() {
        let p = s.subrange(0, s.len() - 4);
        law_trim_glb(p);
        let t = trim_glb(p);
        assert(trim_glb(s) == t);
        let d = p.len() - t.len();
        assert((d + 4) % 4 == 0) by (nonlinear_arith)
            requires
                d % 4 == 0,
        ;
    }
}

} // verus!
