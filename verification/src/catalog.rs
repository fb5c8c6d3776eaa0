//! The catalog types: the flat CDN catalog and the two-level media
//! catalog of sub-catalogs ("repos"), decoded from the untyped JSON tree.
//!
//! Retrieving the raw documents is the catalog client's job; everything
//! here is pure decoding and enumeration over already-parsed values.

use crate::errors::CatalogError;
use crate::json::JsonValue;
use crate::json::find_urls_under;
use crate::json::parse_catalog;
use crate::json::spec_parse_json;
use crate::json::urls_under;
use vstd::prelude::*;

verus! {

/// The flat CDN catalog: one arbitrary JSON tree in which resource URLs
/// sit under keys named `url` at any depth.
#[derive(Debug)]
pub struct Cdn {
    pub inner: JsonValue,
}

impl Cdn {
    /// Parses the raw CDN catalog document. Fails exactly when the text
    /// is not well-formed JSON.
    pub fn from_text(text: &str) -> (r: Result<Cdn, CatalogError>)
        ensures
            r is Ok <==> spec_parse_json(text@) is Some,
            r matches Ok(c) ==> spec_parse_json(text@) == Some(c.inner),
            r matches Err(e) ==> e == CatalogError::Malformed,
    {
        match parse_catalog(text) {
            Ok(inner) => Ok(Cdn { inner }),
            Err(e) => Err(e),
        }
    }

    /// Every string stored under a key named `url` anywhere in the
    /// catalog, in document order.
    pub fn find_urls(&self) -> (r: Vec<String>)
        ensures
            r.deep_view() == urls_under(self.inner, "url"@),
    {
        let key: String = "url".to_owned();
        find_urls_under(&self.inner, &key)
    }
}

/// The value under the first entry of `entries` whose key is `key`, or
/// `None` when no entry matches.
pub open spec fn lookup_entries(entries: Seq<(String, JsonValue)>, key: Seq<char>) -> Option<
    JsonValue,
>
    decreases entries.len(),
{
    if entries.len() == 0 {
        None
    } else if entries.first().0@ == key {
        Some(entries.first().1)
    } else {
        lookup_entries(entries.drop_first(), key)
    }
}

proof fn lemma_lookup_skip(entries: Seq<(String, JsonValue)>, key: Seq<char>, i: int)
    requires
        0 <= i <= entries.len(),
        forall|j: int| 0 <= j < i ==> (#[trigger] entries[j]).0@ != key,
    ensures
        lookup_entries(entries, key) == lookup_entries(
            entries.subrange(i, entries.len() as int),
            key,
        ),
    decreases i,
{
    if i == 0 {
        assert(entries.subrange(0, entries.len() as int) =~= entries);
    } else {
        lemma_lookup_skip(entries, key, i - 1);
        let tail = entries.subrange(i - 1, entries.len() as int);
        assert(tail.first() == entries[i - 1]);
        assert(tail.drop_first() =~= entries.subrange(i, entries.len() as int));
    }
}

/// Finds the first entry of `entries` stored under `key`.
pub fn get_field<'a>(entries: &'a Vec<(String, JsonValue)>, key: &String) -> (r: Option<
    &'a JsonValue,
>)
    ensures
        r matches Some(v) ==> lookup_entries(entries@, key@) == Some(*v),
        r is None ==> lookup_entries(entries@, key@) is None,
{
    let n = entries.len();
    let mut i: usize = 0;
    while i < n
        invariant
            i <= n,
            n == entries@.len(),
            forall|j: int| 0 <= j < i ==> (#[trigger] entries@[j]).0@ != key@,
        decreases n - i,
    {
        if entries[i].0 == *key {
            proof {
                lemma_lookup_skip(entries@, key@, i as int);
                let tail = entries@.subrange(i as int, n as int);
                assert(tail.first() == entries@[i as int]);
            }
            return Some(&entries[i].1);
        }
        i = i + 1;
    }
    proof {
        lemma_lookup_skip(entries@, key@, n as int);
    }
    None
}

/// The character sequences a JSON array decodes to, provided every
/// element is a string; `None` as soon as one is not.
pub open spec fn decoded_strings(items: Seq<JsonValue>) -> Option<Seq<Seq<char>>>
    decreases items.len(),
{
    if items.len() == 0 {
        Some(Seq::empty())
    } else {
        match decoded_strings(items.drop_last()) {
            Some(prefix) => match items.last() {
                JsonValue::Text(s) => Some(prefix.push(s@)),
                _ => None,
            },
            None => None,
        }
    }
}

proof fn lemma_decoded_strings_none(items: Seq<JsonValue>, k: int)
    requires
        0 <= k <= items.len(),
        decoded_strings(items.take(k)) is None,
    ensures
        decoded_strings(items) is None,
    decreases items.len() - k,
{
    if k == items.len() {
        assert(items.take(k) =~= items);
    } else {
        assert(items.take(k + 1).drop_last() =~= items.take(k));
        lemma_decoded_strings_none(items, k + 1);
    }
}

/// Decodes a JSON array as a list of strings: succeeds exactly when
/// every element is a string, keeping their order.
pub fn decode_strings(items: &Vec<JsonValue>) -> (r: Option<Vec<String>>)
    ensures
        r is Some <==> decoded_strings(items@) is Some,
        r matches Some(v) ==> Some(v.deep_view()) == decoded_strings(items@),
{
    let n = items.len();
    let mut out: Vec<String> = Vec::new();
    let mut i: usize = 0;
    while i < n
        invariant
            i <= n,
            n == items@.len(),
            Some(out.deep_view()) == decoded_strings(items@.take(i as int)),
        decreases n - i,
    {
        let ghost before = out.deep_view();
        match &items[i] {
            JsonValue::Text(s) => {
                out.push(s.clone());
            },
            _ => {
                proof {
                    assert(items@.take(i + 1).drop_last() =~= items@.take(i as int));
                    lemma_decoded_strings_none(items@, i + 1);
                }
                return None;
            },
        }
        proof {
            assert(items@.take(i + 1).drop_last() =~= items@.take(i as int));
            assert(out.deep_view() =~= before.push(items@[i as int]->Text_0@));
        }
        i = i + 1;
    }
    proof {
        assert(items@.take(n as int) =~= items@);
    }
    Some(out)
}

/// The URL of one sub-catalog: `root-p-b`.
pub open spec fn repo_url(root: Seq<char>, p: Seq<char>, b: Seq<char>) -> Seq<char> {
    root + "-"@ + p + "-"@ + b
}

/// The sub-catalog URLs built from one `p` identifier crossed with a run
/// of `b` identifiers, in order.
pub open spec fn row_repo_urls(root: Seq<char>, p: Seq<char>, bs: Seq<Seq<char>>) -> Seq<
    Seq<char>,
>
    decreases bs.len(),
{
    if bs.len() == 0 {
        Seq::empty()
    } else {
        row_repo_urls(root, p, bs.drop_last()).push(repo_url(root, p, bs.last()))
    }
}

/// Every sub-catalog URL of the media catalog: the full cross product of
/// the `p` and `b` identifier lists, `p` outermost, in order.
pub open spec fn all_repo_urls(root: Seq<char>, ps: Seq<Seq<char>>, bs: Seq<Seq<char>>) -> Seq<
    Seq<char>,
>
    decreases ps.len(),
{
    if ps.len() == 0 {
        Seq::empty()
    } else {
        all_repo_urls(root, ps.drop_last(), bs) + row_repo_urls(root, ps.last(), bs)
    }
}

/// The media section of the two-level catalog: a base URL and the two
/// identifier lists whose cross product names every sub-catalog.
#[derive(Debug)]
pub struct PanelMedia {
    pub root: String,
    pub p: Vec<String>,
    pub b: Vec<String>,
}

impl PanelMedia {
    /// Enumerates every sub-catalog URL `root-p-b`, `p` outermost, in
    /// order.
    pub fn iterate_all(&self) -> (r: Vec<String>)
        ensures
            r.deep_view() == all_repo_urls(self.root@, self.p.deep_view(), self.b.deep_view()),
    {
        let mut out: Vec<String> = Vec::new();
        let np = self.p.len();
        let mut i: usize = 0;
        while i < np
            invariant
                i <= np,
                np == self.p@.len(),
                out.deep_view() == all_repo_urls(
                    self.root@,
                    self.p.deep_view().take(i as int),
                    self.b.deep_view(),
                ),
            decreases np - i,
        {
            let nb = self.b.len();
            let mut j: usize = 0;
            while j < nb
                invariant
                    j <= nb,
                    nb == self.b@.len(),
                    i < np,
                    np == self.p@.len(),
                    out.deep_view() == all_repo_urls(
                        self.root@,
                        self.p.deep_view().take(i as int),
                        self.b.deep_view(),
                    ) + row_repo_urls(
                        self.root@,
                        self.p.deep_view()[i as int],
                        self.b.deep_view().take(j as int),
                    ),
                decreases nb - j,
            {
                let ghost before = out.deep_view();
                let mut built = self.root.clone();
                built.append("-");
                built.append(self.p[i].as_str());
                built.append("-");
                built.append(self.b[j].as_str());
                out.push(built);
                proof {
                    let bs = self.b.deep_view();
                    assert(bs.take(j + 1).drop_last() =~= bs.take(j as int));
                    assert(out.deep_view() =~= before.push(
                        repo_url(self.root@, self.p.deep_view()[i as int], bs[j as int]),
                    ));
                }
                j = j + 1;
            }
            proof {
                let ps = self.p.deep_view();
                let bs = self.b.deep_view();
                assert(bs.take(nb as int) =~= bs);
                assert(ps.take(i + 1).drop_last() =~= ps.take(i as int));
            }
            i = i + 1;
        }
        proof {
            assert(self.p.deep_view().take(np as int) =~= self.p.deep_view());
        }
        out
    }
}

/// The mathematical content of a media section.
pub struct MediaView {
    pub root: Seq<char>,
    pub p: Seq<Seq<char>>,
    pub b: Seq<Seq<char>>,
}

impl View for PanelMedia {
    type V = MediaView;

    open spec fn view(&self) -> MediaView {
        MediaView { root: self.root@, p: self.p.deep_view(), b: self.b.deep_view() }
    }
}

/// The media section a JSON value decodes to: an object whose `root` is a
/// string and whose `p` and `b` are arrays of strings; `None` otherwise.
pub open spec fn media_of(j: JsonValue) -> Option<MediaView> {
    match j {
        JsonValue::Object(entries) => match lookup_entries(entries@, "root"@) {
            Some(JsonValue::Text(root)) => match lookup_entries(entries@, "p"@) {
                Some(JsonValue::Array(p_items)) => match decoded_strings(p_items@) {
                    Some(p) => match lookup_entries(entries@, "b"@) {
                        Some(JsonValue::Array(b_items)) => match decoded_strings(b_items@) {
                            Some(b) => Some(MediaView { root: root@, p, b }),
                            None => None,
                        },
                        _ => None,
                    },
                    None => None,
                },
                _ => None,
            },
            _ => None,
        },
        _ => None,
    }
}

impl PanelMedia {
    /// Decodes a media section from the untyped tree: succeeds exactly
    /// when the expected fields are present with the expected shapes.
    pub fn from_json(j: &JsonValue) -> (r: Option<PanelMedia>)
        ensures
            r is Some <==> media_of(*j) is Some,
            r matches Some(m) ==> Some(m@) == media_of(*j),
    {
        let entries = match j {
            JsonValue::Object(entries) => entries,
            _ => {
                return None;
            },
        };
        let root_key: String = "root".to_owned();
        let p_key: String = "p".to_owned();
        let b_key: String = "b".to_owned();
        let root = match get_field(entries, &root_key) {
            Some(JsonValue::Text(root)) => root.clone(),
            _ => {
                return None;
            },
        };
        let p = match get_field(entries, &p_key) {
            Some(JsonValue::Array(p_items)) => match decode_strings(p_items) {
                Some(p) => p,
                None => {
                    return None;
                },
            },
            _ => {
                return None;
            },
        };
        let b = match get_field(entries, &b_key) {
            Some(JsonValue::Array(b_items)) => match decode_strings(b_items) {
                Some(b) => b,
                None => {
                    return None;
                },
            },
            _ => {
                return None;
            },
        };
        Some(PanelMedia { root, p, b })
    }
}

/// The two-level catalog document: its media section.
#[derive(Debug)]
pub struct Spec {
    pub media: PanelMedia,
}

/// The media section the whole catalog document decodes to: the value
/// under its `media` key, decoded as a media section.
pub open spec fn catalog_media_of(j: JsonValue) -> Option<MediaView> {
    match j {
        JsonValue::Object(entries) => match lookup_entries(entries@, "media"@) {
            Some(media) => media_of(media),
            None => None,
        },
        _ => None,
    }
}

impl Spec {
    /// Decodes the catalog document from the untyped tree.
    pub fn from_json(j: &JsonValue) -> (r: Option<Spec>)
        ensures
            r is Some <==> catalog_media_of(*j) is Some,
            r matches Some(s) ==> Some(s.media@) == catalog_media_of(*j),
    {
        let entries = match j {
            JsonValue::Object(entries) => entries,
            _ => {
                return None;
            },
        };
        let media_key: String = "media".to_owned();
        let media_value = match get_field(entries, &media_key) {
            Some(v) => v,
            None => {
                return None;
            },
        };
        match PanelMedia::from_json(media_value) {
            Some(media) => Some(Spec { media }),
            None => None,
        }
    }

    /// Parses and decodes the raw catalog document in one step. A document
    /// that is not well-formed JSON, or whose tree has no decodable media
    /// section, is a malformed catalog.
    pub fn from_text(text: &str) -> (r: Result<Spec, CatalogError>)
        ensures
            r is Ok <==> (spec_parse_json(text@) matches Some(j) && catalog_media_of(j)
                is Some),
            r matches Ok(s) ==> (spec_parse_json(text@) matches Some(j) && Some(s.media@)
                == catalog_media_of(j)),
            r matches Err(e) ==> e == CatalogError::Malformed,
    {
        let tree = match parse_catalog(text) {
            Ok(tree) => tree,
            Err(e) => {
                return Err(e);
            },
        };
        match Spec::from_json(&tree) {
            Some(s) => Ok(s),
            None => Err(CatalogError::Malformed),
        }
    }
}

/// The form-factor table a JSON value decodes to: an object every one of
/// whose values is a string (form factor mapped to URL); `None` otherwise.
pub open spec fn decoded_forms(entries: Seq<(String, JsonValue)>) -> Option<
    Seq<(Seq<char>, Seq<char>)>,
>
    decreases entries.len(),
{
    if entries.len() == 0 {
        Some(Seq::empty())
    } else {
        match decoded_forms(entries.drop_last()) {
            Some(prefix) => match entries.last().1 {
                JsonValue::Text(s) => Some(prefix.push((entries.last().0@, s@))),
                _ => None,
            },
            None => None,
        }
    }
}

proof fn lemma_decoded_forms_none(entries: Seq<(String, JsonValue)>, k: int)
    requires
        0 <= k <= entries.len(),
        decoded_forms(entries.take(k)) is None,
    ensures
        decoded_forms(entries) is None,
    decreases entries.len() - k,
{
    if k == entries.len() {
        assert(entries.take(k) =~= entries);
    } else {
        assert(entries.take(k + 1).drop_last() =~= entries.take(k));
        lemma_decoded_forms_none(entries, k + 1);
    }
}

/// The form-factor table of one image, decoded from the untyped tree.
pub open spec fn image_of(j: JsonValue) -> Option<Seq<(Seq<char>, Seq<char>)>> {
    match j {
        JsonValue::Object(entries) => decoded_forms(entries@),
        _ => None,
    }
}

/// One image of a sub-catalog: every form factor it is available in,
/// mapped to that rendition's URL, in document order.
#[derive(Debug)]
pub struct Image {
    pub image: Vec<(String, String)>,
}

impl View for Image {
    type V = Seq<(Seq<char>, Seq<char>)>;

    open spec fn view(&self) -> Seq<(Seq<char>, Seq<char>)> {
        Seq::new(self.image@.len(), |i: int| (self.image@[i].0@, self.image@[i].1@))
    }
}

impl Image {
    /// Decodes one image's form-factor table: succeeds exactly when the
    /// value is an object all of whose values are strings.
    pub fn from_json(j: &JsonValue) -> (r: Option<Image>)
        ensures
            r is Some <==> image_of(*j) is Some,
            r matches Some(img) ==> Some(img@) == image_of(*j),
    {
        let entries = match j {
            JsonValue::Object(entries) => entries,
            _ => {
                return None;
            },
        };
        let n = entries.len();
        let mut forms: Vec<(String, String)> = Vec::new();
        let mut i: usize = 0;
        while i < n
            invariant
                i <= n,
                n == entries@.len(),
                *j == JsonValue::Object(*entries),
                forms@.len() == i,
                Some(
                    Seq::new(forms@.len(), |k: int| (forms@[k].0@, forms@[k].1@)),
                ) == decoded_forms(entries@.take(i as int)),
            decreases n - i,
        {
            let ghost before = Seq::new(forms@.len(), |k: int| (forms@[k].0@, forms@[k].1@));
            match &entries[i].1 {
                JsonValue::Text(s) => {
                    forms.push((entries[i].0.clone(), s.clone()));
                },
                _ => {
                    proof {
                        assert(entries@.take(i + 1).drop_last() =~= entries@.take(i as int));
                        lemma_decoded_forms_none(entries@, i + 1);
                    }
                    return None;
                },
            }
            proof {
                assert(entries@.take(i + 1).drop_last() =~= entries@.take(i as int));
                assert(Seq::new(forms@.len(), |k: int| (forms@[k].0@, forms@[k].1@))
                    =~= before.push((entries@[i as int].0@, entries@[i as int].1->Text_0@)));
            }
            i = i + 1;
        }
        proof {
            assert(entries@.take(n as int) =~= entries@);
        }
        Some(Image { image: forms })
    }
}

/// The image table a sub-catalog's `data` object decodes to: each entry
/// an image identifier and its decoded form-factor table; `None` as soon
/// as one image does not decode.
pub open spec fn decoded_repo_data(entries: Seq<(String, JsonValue)>) -> Option<
    Seq<(Seq<char>, Seq<(Seq<char>, Seq<char>)>)>,
>
    decreases entries.len(),
{
    if entries.len() == 0 {
        Some(Seq::empty())
    } else {
        match decoded_repo_data(entries.drop_last()) {
            Some(prefix) => match image_of(entries.last().1) {
                Some(forms) => Some(prefix.push((entries.last().0@, forms))),
                None => None,
            },
            None => None,
        }
    }
}

proof fn lemma_decoded_repo_data_none(entries: Seq<(String, JsonValue)>, k: int)
    requires
        0 <= k <= entries.len(),
        decoded_repo_data(entries.take(k)) is None,
    ensures
        decoded_repo_data(entries) is None,
    decreases entries.len() - k,
{
    if k == entries.len() {
        assert(entries.take(k) =~= entries);
    } else {
        assert(entries.take(k + 1).drop_last() =~= entries.take(k));
        lemma_decoded_repo_data_none(entries, k + 1);
    }
}

/// The image table of a whole sub-catalog document: the decoded `data`
/// object; `None` when the document is no object, has no `data` object,
/// or one of its images does not decode.
pub open spec fn repo_data_of(j: JsonValue) -> Option<
    Seq<(Seq<char>, Seq<(Seq<char>, Seq<char>)>)>,
> {
    match j {
        JsonValue::Object(entries) => match lookup_entries(entries@, "data"@) {
            Some(JsonValue::Object(data_entries)) => decoded_repo_data(data_entries@),
            _ => None,
        },
        _ => None,
    }
}

/// One sub-catalog: the identifier it is stored under and its image
/// table, in document order.
#[derive(Debug)]
pub struct Repo {
    pub repo: String,
    pub data: Vec<(String, Image)>,
}

impl Repo {
    /// The mathematical content of the image table.
    pub open spec fn data_view(self) -> Seq<(Seq<char>, Seq<(Seq<char>, Seq<char>)>)> {
        Seq::new(self.data@.len(), |i: int| (self.data@[i].0@, self.data@[i].1@))
    }

    /// Decodes a sub-catalog document, storing it under `repo`: succeeds
    /// exactly when the document carries a decodable `data` object.
    pub fn from_json(repo: String, j: &JsonValue) -> (r: Option<Repo>)
        ensures
            r is Some <==> repo_data_of(*j) is Some,
            r matches Some(rep) ==> ({
                &&& rep.repo == repo
                &&& Some(rep.data_view()) == repo_data_of(*j)
            }),
    {
        let entries = match j {
            JsonValue::Object(entries) => entries,
            _ => {
                return None;
            },
        };
        let data_key: String = "data".to_owned();
        let data_entries = match get_field(entries, &data_key) {
            Some(JsonValue::Object(data_entries)) => data_entries,
            _ => {
                return None;
            },
        };
        let n = data_entries.len();
        let mut data: Vec<(String, Image)> = Vec::new();
        let mut i: usize = 0;
        while i < n
            invariant
                i <= n,
                n == data_entries@.len(),
                *j == JsonValue::Object(*entries),
                lookup_entries(entries@, "data"@) == Some(JsonValue::Object(*data_entries)),
                data@.len() == i,
                Some(
                    Seq::new(data@.len(), |k: int| (data@[k].0@, data@[k].1@)),
                ) == decoded_repo_data(data_entries@.take(i as int)),
            decreases n - i,
        {
            let ghost before = Seq::new(data@.len(), |k: int| (data@[k].0@, data@[k].1@));
            match Image::from_json(&data_entries[i].1) {
                Some(img) => {
                    data.push((data_entries[i].0.clone(), img));
                },
                None => {
                    proof {
                        assert(data_entries@.take(i + 1).drop_last() =~= data_entries@.take(
                            i as int,
                        ));
                        lemma_decoded_repo_data_none(data_entries@, i + 1);
                    }
                    return None;
                },
            }
            proof {
                assert(data_entries@.take(i + 1).drop_last() =~= data_entries@.take(i as int));
                assert(Seq::new(data@.len(), |k: int| (data@[k].0@, data@[k].1@)) =~= before.push(
                    (
                        data_entries@[i as int].0@,
                        image_of(data_entries@[i as int].1)->Some_0,
                    ),
                ));
            }
            i = i + 1;
        }
        proof {
            assert(data_entries@.take(n as int) =~= data_entries@);
        }
        Some(Repo { repo, data })
    }
}

/// One planned image download of the two-level catalog: which image, out
/// of which sub-catalog, in which form factor, from which URL.
#[derive(Debug)]
pub struct ImageDownload {
    pub id: String,
    pub repo_id: String,
    pub form_factor: String,
    pub url: String,
}

/// The mathematical content of one planned image download.
pub struct ImageDownloadView {
    pub id: Seq<char>,
    pub repo_id: Seq<char>,
    pub form_factor: Seq<char>,
    pub url: Seq<char>,
}

impl View for ImageDownload {
    type V = ImageDownloadView;

    open spec fn view(&self) -> ImageDownloadView {
        ImageDownloadView {
            id: self.id@,
            repo_id: self.repo_id@,
            form_factor: self.form_factor@,
            url: self.url@,
        }
    }
}

impl DeepView for ImageDownload {
    type V = ImageDownloadView;

    open spec fn deep_view(&self) -> ImageDownloadView {
        self.view()
    }
}

/// The downloads one image contributes: one per form factor, in order.
pub open spec fn downloads_of_forms(
    repo_id: Seq<char>,
    id: Seq<char>,
    forms: Seq<(Seq<char>, Seq<char>)>,
) -> Seq<ImageDownloadView>
    decreases forms.len(),
{
    if forms.len() == 0 {
        Seq::empty()
    } else {
        downloads_of_forms(repo_id, id, forms.drop_last()).push(
            ImageDownloadView {
                id,
                repo_id,
                form_factor: forms.last().0,
                url: forms.last().1,
            },
        )
    }
}

/// The downloads one sub-catalog's image table contributes, image by
/// image, in order.
pub open spec fn downloads_of_data(
    repo_id: Seq<char>,
    data: Seq<(Seq<char>, Seq<(Seq<char>, Seq<char>)>)>,
) -> Seq<ImageDownloadView>
    decreases data.len(),
{
    if data.len() == 0 {
        Seq::empty()
    } else {
        downloads_of_data(repo_id, data.drop_last()) + downloads_of_forms(
            repo_id,
            data.last().0,
            data.last().1,
        )
    }
}

/// Every download the fetched sub-catalogs call for, sub-catalog by
/// sub-catalog, in order.
pub open spec fn downloads_of_repos(repos: Seq<Repo>) -> Seq<ImageDownloadView>
    decreases repos.len(),
{
    if repos.len() == 0 {
        Seq::empty()
    } else {
        downloads_of_repos(repos.drop_last()) + downloads_of_data(
            repos.last().repo@,
            repos.last().data_view(),
        )
    }
}

/// Flattens the fetched sub-catalogs into the full list of downloads:
/// one per image and form factor, in catalog order.
pub fn plan_image_downloads(repos: &Vec<Repo>) -> (r: Vec<ImageDownload>)
    ensures
        r.deep_view() == downloads_of_repos(repos@),
{
    let mut out: Vec<ImageDownload> = Vec::new();
    let nr = repos.len();
    let mut i: usize = 0;
    while i < nr
        invariant
            i <= nr,
            nr == repos@.len(),
            out.deep_view() == downloads_of_repos(repos@.take(i as int)),
        decreases nr - i,
    {
        let nd = repos[i].data.len();
        let mut k: usize = 0;
        while k < nd
            invariant
                i < nr,
                nr == repos@.len(),
                k <= nd,
                nd == repos@[i as int].data@.len(),
                out.deep_view() == downloads_of_repos(repos@.take(i as int))
                    + downloads_of_data(
                    repos@[i as int].repo@,
                    repos@[i as int].data_view().take(k as int),
                ),
            decreases nd - k,
        {
            let nf = repos[i].data[k].1.image.len();
            let mut m: usize = 0;
            while m < nf
                invariant
                    i < nr,
                    nr == repos@.len(),
                    k < nd,
                    nd == repos@[i as int].data@.len(),
                    m <= nf,
                    nf == repos@[i as int].data@[k as int].1.image@.len(),
                    out.deep_view() == downloads_of_repos(repos@.take(i as int))
                        + downloads_of_data(
                        repos@[i as int].repo@,
                        repos@[i as int].data_view().take(k as int),
                    ) + downloads_of_forms(
                        repos@[i as int].repo@,
                        repos@[i as int].data@[k as int].0@,
                        repos@[i as int].data@[k as int].1@.take(m as int),
                    ),
                decreases nf - m,
            {
                let ghost before = out.deep_view();
                let download = ImageDownload {
                    id: repos[i].data[k].0.clone(),
                    repo_id: repos[i].repo.clone(),
                    form_factor: repos[i].data[k].1.image[m].0.clone(),
                    url: repos[i].data[k].1.image[m].1.clone(),
                };
                out.push(download);
                proof {
                    let forms = repos@[i as int].data@[k as int].1@;
                    assert(forms.take(m + 1).drop_last() =~= forms.take(m as int));
                    assert(out.deep_view() =~= before.push(
                        ImageDownloadView {
                            id: repos@[i as int].data@[k as int].0@,
                            repo_id: repos@[i as int].repo@,
                            form_factor: forms[m as int].0,
                            url: forms[m as int].1,
                        },
                    ));
                }
                m = m + 1;
            }
            proof {
                let dv = repos@[i as int].data_view();
                let forms = repos@[i as int].data@[k as int].1@;
                assert(forms.take(nf as int) =~= forms);
                assert(dv.take(k + 1).drop_last() =~= dv.take(k as int));
                assert(dv.take(k + 1).last() == dv[k as int]);
            }
            k = k + 1;
        }
        proof {
            let dv = repos@[i as int].data_view();
            assert(dv.take(nd as int) =~= dv);
            assert(repos@.take(i + 1).drop_last() =~= repos@.take(i as int));
            assert(repos@.take(i + 1).last() == repos@[i as int]);
        }
        i = i + 1;
    }
    proof {
        assert(repos@.take(nr as int) =~= repos@);
    }
    out
}

impl ImageDownload {
    /// Where this image will be stored: the sub-catalog identifier names
    /// the subdirectory, and `id-form_factor` the filename stem.
    pub fn descriptor(&self) -> (r: crate::paths::ResourceDescriptor)
        ensures
            r.source_url@ == self.url@,
            r.local_directory@ == self.repo_id@,
            r.local_stem@ == self.id@ + "-"@ + self.form_factor@,
    {
        let mut stem = self.id.clone();
        stem.append("-");
        stem.append(self.form_factor.as_str());
        crate::paths::ResourceDescriptor {
            source_url: self.url.clone(),
            local_directory: self.repo_id.clone(),
            local_stem: stem,
        }
    }
}

} // verus!
