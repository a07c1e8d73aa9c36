//! The artwork of a screen: which title each of its shapes goes by, which shapes are kept,
//! and how the drawings of the shapes become the mask and the owners of its pixels.

use crate::blend::Rgba;
use crate::canvas::{is_pixel_buffer, lemma_pixel_count, Canvas, MAX_SIDE};
use crate::codec::{parse_title, title_of};
use crate::compose::{owners_marked, record_ids};
use crate::display::{show_colors, shown_bytes, unresolved_count};
use crate::mask::PixelIDMap;
use crate::render::{aligned_bytes, lay_image, ImageDimensions, RenderedSVG};
use crate::text::texts;
use svg::node::element::tag::Type;
use svg::parser::Event;
use vstd::prelude::*;
use vstd::string::{StrSliceExecFns, StringExecFns};

verus! {

/// One event in reading a document of artwork.
#[derive(Debug)]
pub enum SvgEvent {
    /// A tag opens. With it comes the identifier that the tag gives itself, if any.
    Start(String, Option<String>),
    /// A tag closes.
    End(String),
    /// A tag opens and closes at once. With it comes its identifier, if any.
    Empty(String, Option<String>),
    /// Text between tags.
    Text(String),
    /// Anything else: a comment, a declaration, an instruction.
    Other,
}

/// The artwork is not built as a document of shapes and groups is.
#[derive(Clone, Copy, Debug, PartialEq, Eq, Structural)]
pub enum ArtworkError {
    /// The document cannot be read as a sequence of tags and text.
    Unreadable,
    /// A shape opens inside a shape.
    NestedPath,
    /// A title opens inside a title.
    NestedTitle,
    /// A title closes that was not opened.
    UnopenedTitle,
    /// A shape closes that was not opened.
    UnopenedPath,
    /// A group closes that was not opened.
    UnopenedGroup,
    /// The drawing at this place among the drawings of the shapes, the drawing of the whole
    /// coming last, is no pixel buffer of the size that the artwork is drawn at.
    NotDrawn { place: usize },
}

/// The events that `svg::read` finds in a document, each with the attribute `key` of its tag;
/// none where it reports an error.
pub uninterp spec fn svg_events(content: Seq<char>, key: Seq<char>) -> Option<Seq<SvgEvent>>;

/// Calls `svg::read` and walks the parser it returns to the end. Claimed of it: the events
/// are a function of the document alone, which goes by the name `svg_events`; each tag comes
/// with its name and with the value of its attribute `key`, each text with its content; there
/// is no result where the parser reports an error.
#[verifier::external_body]
pub(crate) fn read_events(content: &str, key: &str) -> (res: Option<Vec<SvgEvent>>)
    ensures
        match res {
            Some(events) => svg_events(content@, key@) == Some(events@),
            None => svg_events(content@, key@) is None,
        },
{
    let mut events = Vec::new();
    for event in svg::read(content).ok()? {
        events.push(match event {
            Event::Tag(n, Type::Start, a) => SvgEvent::Start(n.into(), a.get(key).map(|v| v.to_string())),
            Event::Tag(n, Type::End, _) => SvgEvent::End(n.into()),
            Event::Tag(n, Type::Empty, a) => SvgEvent::Empty(n.into(), a.get(key).map(|v| v.to_string())),
            Event::Text(t) => SvgEvent::Text(t.into()),
            Event::Error(_) => return None,
            _ => SvgEvent::Other,
        });
    }
    Some(events)
}

/// A list of titles by identifier. No identifier stands in it twice.
pub type TitleList = Seq<(Seq<char>, u16)>;

/// The place of an identifier in a list of titles, where it has one.
pub open spec fn place_of(titles: TitleList, id: Seq<char>) -> Option<int> {
    if exists|i: int| 0 <= i < titles.len() && (#[trigger] titles[i]).0 == id {
        Some(choose|i: int| 0 <= i < titles.len() && (#[trigger] titles[i]).0 == id)
    } else {
        None
    }
}

/// Whether an identifier has a title in the list.
pub open spec fn has_title(titles: TitleList, id: Seq<char>) -> bool {
    exists|i: int| 0 <= i < titles.len() && (#[trigger] titles[i]).0 == id
}

/// Whether no identifier stands in the list twice.
pub open spec fn distinct_ids(titles: TitleList) -> bool {
    forall|i: int, j: int|
        0 <= i < j < titles.len() ==> (#[trigger] titles[i]).0 != (#[trigger] titles[j]).0
}

/// The list with the title of an identifier set: in place where the identifier already has
/// one, at the end where it has none.
pub open spec fn with_title(titles: TitleList, id: Seq<char>, title: u16) -> TitleList {
    match place_of(titles, id) {
        Some(i) => titles.update(i, (id, title)),
        None => titles.push((id, title)),
    }
}

/// The list with the given title for each of the identifiers that has none yet.
pub open spec fn with_inherited(titles: TitleList, ids: Seq<Seq<char>>, title: u16) -> TitleList
    decreases ids.len(),
{
    if ids.len() == 0 {
        titles
    } else {
        let before = with_inherited(titles, ids.drop_last(), title);
        if has_title(before, ids.last()) {
            before
        } else {
            before.push((ids.last(), title))
        }
    }
}

/// A group that is open: its title, if one was read, and the identifiers of the shapes that
/// closed directly inside it.
pub struct GroupModel {
    pub title: Option<u16>,
    pub paths: Seq<Seq<char>>,
}

/// A shape that is open: its identifier, if it has one, and its title, if one was read.
pub struct PathModel {
    pub id: Option<Seq<char>>,
    pub title: Option<u16>,
}

/// Where the reading of a document stands.
pub struct ScanModel {
    /// The groups that are open, the outermost first.
    pub groups: Seq<GroupModel>,
    /// The shape that is open, if one is.
    pub path: Option<PathModel>,
    /// Whether a title is open.
    pub inside_title: bool,
    /// The titles found so far.
    pub titles: TitleList,
}

/// The title that a group hands down: its own, or else that of the nearest group around it
/// that has one.
pub open spec fn handed_down(groups: Seq<GroupModel>) -> Option<u16>
    decreases groups.len(),
{
    if groups.len() == 0 {
        None
    } else if groups.last().title is Some {
        groups.last().title
    } else {
        handed_down(groups.drop_last())
    }
}

/// The identifier that a tag gives itself, as text.
pub open spec fn id_text(id: Option<String>) -> Option<Seq<char>> {
    match id {
        Some(s) => Some(s@),
        None => None,
    }
}

impl ScanModel {
    /// Before anything is read.
    pub open spec fn start() -> ScanModel {
        ScanModel { groups: Seq::empty(), path: None, inside_title: false, titles: Seq::empty() }
    }

    /// A group opens.
    pub open spec fn open_group(self) -> ScanModel {
        ScanModel {
            groups: self.groups.push(GroupModel { title: None, paths: Seq::empty() }),
            ..self
        }
    }

    /// Text is read. Inside a title it is the title of the open shape, or else of the
    /// innermost open group; a text that is no title leaves that one untitled.
    pub open spec fn read_text(self, text: Seq<char>) -> ScanModel {
        if !self.inside_title {
            self
        } else if self.path is Some {
            ScanModel {
                path: Some(PathModel { id: self.path->0.id, title: title_of(text) }),
                ..self
            }
        } else if self.groups.len() > 0 {
            ScanModel {
                groups: self.groups.update(
                    self.groups.len() - 1,
                    GroupModel { title: title_of(text), paths: self.groups.last().paths },
                ),
                ..self
            }
        } else {
            self
        }
    }

    /// The shape `path` closes. With an identifier it is entered into the innermost open
    /// group, and its own title, where it has one, is entered under its identifier. Without
    /// an identifier it leaves no trace.
    pub open spec fn close_path(self, path: PathModel) -> ScanModel {
        match path.id {
            None => ScanModel { path: None, ..self },
            Some(id) => ScanModel {
                groups: if self.groups.len() > 0 {
                    self.groups.update(
                        self.groups.len() - 1,
                        GroupModel {
                            title: self.groups.last().title,
                            paths: self.groups.last().paths.push(id),
                        },
                    )
                } else {
                    self.groups
                },
                path: None,
                inside_title: self.inside_title,
                titles: match path.title {
                    Some(title) => with_title(self.titles, id, title),
                    None => self.titles,
                },
            },
        }
    }

    /// The innermost open group closes. The title that it hands down goes to each shape
    /// directly inside it that has no title yet.
    pub open spec fn close_group(self) -> ScanModel {
        ScanModel {
            groups: self.groups.drop_last(),
            titles: match handed_down(self.groups) {
                Some(title) => with_inherited(self.titles, self.groups.last().paths, title),
                None => self.titles,
            },
            ..self
        }
    }

    /// Where the reading stands after one more event, or why the document is malformed.
    pub open spec fn step(self, event: SvgEvent) -> Result<ScanModel, ArtworkError> {
        match event {
            SvgEvent::Start(name, id) => if name@ == "g"@ {
                Ok(self.open_group())
            } else if name@ == "path"@ {
                if self.path is Some {
                    Err(ArtworkError::NestedPath)
                } else {
                    Ok(
                        ScanModel {
                            path: Some(PathModel { id: id_text(id), title: None }),
                            ..self
                        },
                    )
                }
            } else if name@ == "title"@ {
                if self.inside_title {
                    Err(ArtworkError::NestedTitle)
                } else {
                    Ok(ScanModel { inside_title: true, ..self })
                }
            } else {
                Ok(self)
            },
            SvgEvent::Text(text) => Ok(self.read_text(text@)),
            SvgEvent::End(name) => if name@ == "title"@ {
                if self.inside_title {
                    Ok(ScanModel { inside_title: false, ..self })
                } else {
                    Err(ArtworkError::UnopenedTitle)
                }
            } else if name@ == "path"@ {
                match self.path {
                    Some(path) => Ok(self.close_path(path)),
                    None => Err(ArtworkError::UnopenedPath),
                }
            } else if name@ == "g"@ {
                if self.groups.len() > 0 {
                    Ok(self.close_group())
                } else {
                    Err(ArtworkError::UnopenedGroup)
                }
            } else {
                Ok(self)
            },
            SvgEvent::Empty(name, id) => if name@ == "path"@ {
                Ok(self.close_path(PathModel { id: id_text(id), title: None }))
            } else {
                Ok(self)
            },
            SvgEvent::Other => Ok(self),
        }
    }

    /// Where the reading stands after the first `n` events, or the first reason why the
    /// document is malformed.
    pub open spec fn after(events: Seq<SvgEvent>, n: int) -> Result<ScanModel, ArtworkError>
        decreases n,
    {
        if n <= 0 {
            Ok(ScanModel::start())
        } else {
            match ScanModel::after(events, n - 1) {
                Ok(state) => state.step(events[n - 1]),
                Err(e) => Err(e),
            }
        }
    }
}

/// The titles that the shapes of a document go by, or why the document is malformed.
pub open spec fn titles_of(events: Seq<SvgEvent>) -> Result<TitleList, ArtworkError> {
    match ScanModel::after(events, events.len() as int) {
        Ok(state) => Ok(state.titles),
        Err(e) => Err(e),
    }
}

/// A group that is open.
#[derive(Debug)]
pub struct ActiveGroup {
    pub title: Option<u16>,
    pub paths: Vec<String>,
}

/// A shape that is open.
#[derive(Debug)]
pub struct ActivePath {
    pub id: Option<String>,
    pub title: Option<u16>,
}

/// Where the reading of a document stands.
#[derive(Debug)]
pub struct Scan {
    pub groups: Vec<ActiveGroup>,
    pub path: Option<ActivePath>,
    pub inside_title: bool,
    pub titles: Vec<(String, u16)>,
}

/// What a list of titles holds.
pub open spec fn titles_model(titles: Seq<(String, u16)>) -> TitleList {
    titles.map_values(|t: (String, u16)| (t.0@, t.1))
}

/// What an open group holds.
pub open spec fn group_model(group: ActiveGroup) -> GroupModel {
    GroupModel { title: group.title, paths: texts(group.paths@) }
}

/// What a stack of open groups holds.
pub open spec fn groups_model(groups: Seq<ActiveGroup>) -> Seq<GroupModel> {
    groups.map_values(|g: ActiveGroup| group_model(g))
}

/// What an open shape holds.
pub open spec fn path_model(path: Option<ActivePath>) -> Option<PathModel> {
    match path {
        Some(p) => Some(PathModel { id: id_text(p.id), title: p.title }),
        None => None,
    }
}

impl View for Scan {
    type V = ScanModel;

    open spec fn view(&self) -> ScanModel {
        ScanModel {
            groups: groups_model(self.groups@),
            path: path_model(self.path),
            inside_title: self.inside_title,
            titles: titles_model(self.titles@),
        }
    }
}

/// Tells whether a name is the given word.
pub fn is_named(name: &String, word: &str) -> (res: bool)
    ensures
        res == (name@ == word@),
{
    let wanted: String = String::from_str(word);
    *name == wanted
}

/// Finds the place of an identifier in a list of titles.
pub fn find_title(titles: &Vec<(String, u16)>, id: &String) -> (res: Option<usize>)
    ensures
        match res {
            Some(i) => i < titles@.len() && titles_model(titles@)[i as int].0 == id@,
            None => !has_title(titles_model(titles@), id@),
        },
{
    let mut i: usize = 0;
    while i < titles.len()
        invariant
            i <= titles@.len(),
            forall|j: int| 0 <= j < i ==> (#[trigger] titles_model(titles@)[j]).0 != id@,
        decreases titles@.len() - i,
    {
        if titles[i].0 == *id {
            return Some(i);
        }
        i += 1;
    }
    None
}

/// In a list without repeated identifiers, the place of an identifier is the one place where
/// it stands.
pub proof fn lemma_place_of(titles: TitleList, id: Seq<char>, i: int)
    requires
        distinct_ids(titles),
        0 <= i < titles.len(),
        titles[i].0 == id,
    ensures
        place_of(titles, id) == Some(i),
{
    let c = choose|c: int| 0 <= c < titles.len() && (#[trigger] titles[c]).0 == id;
    if c < i {
        assert(titles[c].0 != titles[i].0);
    } else if i < c {
        assert(titles[i].0 != titles[c].0);
    }
}

/// Sets the title of an identifier.
pub fn set_title(titles: &mut Vec<(String, u16)>, id: &String, title: u16)
    requires
        distinct_ids(titles_model(old(titles)@)),
    ensures
        titles_model(final(titles)@) == with_title(titles_model(old(titles)@), id@, title),
        distinct_ids(titles_model(final(titles)@)),
{
    let ghost before = titles_model(titles@);
    match find_title(titles, id) {
        Some(i) => {
            proof {
                lemma_place_of(before, id@, i as int);
            }
            titles.set(i, (id.clone(), title));
            assert(titles_model(titles@) =~= before.update(i as int, (id@, title)));
        },
        None => {
            titles.push((id.clone(), title));
            assert(titles_model(titles@) =~= before.push((id@, title)));
        },
    }
}

/// Gives the title to each of the identifiers that has none yet.
pub fn inherit_title(titles: &mut Vec<(String, u16)>, ids: &Vec<String>, title: u16)
    requires
        distinct_ids(titles_model(old(titles)@)),
    ensures
        titles_model(final(titles)@) == with_inherited(
            titles_model(old(titles)@),
            texts(ids@),
            title,
        ),
        distinct_ids(titles_model(final(titles)@)),
{
    let ghost start = titles_model(titles@);
    let mut n: usize = 0;
    while n < ids.len()
        invariant
            n <= ids@.len(),
            distinct_ids(titles_model(titles@)),
            titles_model(titles@) == with_inherited(start, texts(ids@).take(n as int), title),
        decreases ids@.len() - n,
    {
        let ghost before = titles_model(titles@);
        proof {
            assert(texts(ids@).take(n + 1).drop_last() =~= texts(ids@).take(n as int));
            assert(texts(ids@).take(n + 1).last() == ids@[n as int]@);
        }
        if find_title(titles, &ids[n]).is_none() {
            titles.push((ids[n].clone(), title));
            assert(titles_model(titles@) =~= before.push((ids@[n as int]@, title)));
        }
        n += 1;
    }
    assert(texts(ids@).take(n as int) =~= texts(ids@));
}

/// The title that the innermost open group hands down.
pub fn nearest_title(groups: &Vec<ActiveGroup>) -> (res: Option<u16>)
    ensures
        res == handed_down(groups_model(groups@)),
{
    let mut n: usize = groups.len();
    assert(groups_model(groups@).take(n as int) =~= groups_model(groups@));
    while n > 0
        invariant
            n <= groups@.len(),
            handed_down(groups_model(groups@)) == handed_down(groups_model(groups@).take(n as int)),
        decreases n,
    {
        let ghost stack = groups_model(groups@).take(n as int);
        proof {
            assert(stack.last() == group_model(groups@[n - 1]));
            assert(stack.drop_last() =~= groups_model(groups@).take(n - 1));
        }
        n -= 1;
        match groups[n].title {
            Some(title) => {
                return Some(title);
            },
            None => {},
        }
    }
    assert(groups_model(groups@).take(0) =~= Seq::<GroupModel>::empty());
    None
}

/// A copy of the identifier that a tag gives itself.
pub fn copy_id(id: &Option<String>) -> (res: Option<String>)
    ensures
        id_text(res) == id_text(*id),
{
    match id {
        Some(s) => Some(s.clone()),
        None => None,
    }
}

impl Scan {
    /// The state before anything is read.
    pub fn new() -> (res: Scan)
        ensures
            res@ == ScanModel::start(),
            distinct_ids(res@.titles),
    {
        let scan = Scan {
            groups: Vec::new(),
            path: None,
            inside_title: false,
            titles: Vec::new(),
        };
        assert(scan@.groups =~= Seq::<GroupModel>::empty());
        assert(scan@.titles =~= Seq::<(Seq<char>, u16)>::empty());
        scan
    }

    /// Takes in a text.
    pub fn read_text(&mut self, text: &String)
        ensures
            final(self)@ == old(self)@.read_text(text@),
            final(self)@.titles == old(self)@.titles,
    {
        if !self.inside_title {
            return ;
        }
        let title: Option<u16> = parse_title(text.as_str());
        match self.path.take() {
            Some(path) => {
                self.path = Some(ActivePath { id: path.id, title });
            },
            None => {
                let ghost before = groups_model(self.groups@);
                match self.groups.pop() {
                    Some(group) => {
                        self.groups.push(ActiveGroup { title, paths: group.paths });
                        assert(groups_model(self.groups@) =~= before.update(
                            before.len() - 1,
                            GroupModel { title, paths: before.last().paths },
                        ));
                    },
                    None => {
                        assert(groups_model(self.groups@) =~= before);
                    },
                }
            },
        }
    }

    /// Takes in the end of the shape `path`.
    pub fn close_path(&mut self, path: ActivePath)
        requires
            distinct_ids(old(self)@.titles),
        ensures
            final(self)@ == old(self)@.close_path(path_model(Some(path))->0),
            distinct_ids(final(self)@.titles),
    {
        self.path = None;
        match path.id {
            None => {},
            Some(id) => {
                let ghost before = groups_model(self.groups@);
                match self.groups.pop() {
                    Some(group) => {
                        let mut paths: Vec<String> = group.paths;
                        let ghost listed = texts(paths@);
                        paths.push(id.clone());
                        assert(texts(paths@) =~= listed.push(id@));
                        self.groups.push(ActiveGroup { title: group.title, paths });
                        assert(groups_model(self.groups@) =~= before.update(
                            before.len() - 1,
                            GroupModel { title: before.last().title, paths: listed.push(id@) },
                        ));
                    },
                    None => {
                        assert(groups_model(self.groups@) =~= before);
                    },
                }
                match path.title {
                    Some(title) => {
                        set_title(&mut self.titles, &id, title);
                    },
                    None => {},
                }
            },
        }
    }

    /// Takes in the end of the innermost open group.
    pub fn close_group(&mut self)
        requires
            old(self)@.groups.len() > 0,
            distinct_ids(old(self)@.titles),
        ensures
            final(self)@ == old(self)@.close_group(),
            distinct_ids(final(self)@.titles),
    {
        let handed: Option<u16> = nearest_title(&self.groups);
        let ghost before = groups_model(self.groups@);
        let group: ActiveGroup = self.groups.pop().unwrap();
        assert(groups_model(self.groups@) =~= before.drop_last());
        assert(group_model(group) == before.last());
        match handed {
            Some(title) => {
                inherit_title(&mut self.titles, &group.paths, title);
            },
            None => {},
        }
    }

    /// Takes in one more event, or tells why the document is malformed. A malformed
    /// document leaves the state as it was.
    pub fn step(&mut self, event: &SvgEvent) -> (res: Result<(), ArtworkError>)
        requires
            distinct_ids(old(self)@.titles),
        ensures
            match old(self)@.step(*event) {
                Ok(next) => res is Ok && final(self)@ == next,
                Err(e) => res == Err::<(), ArtworkError>(e) && final(self)@ == old(self)@,
            },
            distinct_ids(final(self)@.titles),
    {
        match event {
            SvgEvent::Start(name, id) => {
                if is_named(name, "g") {
                    let ghost before = groups_model(self.groups@);
                    let paths: Vec<String> = Vec::new();
                    assert(texts(paths@) =~= Seq::<Seq<char>>::empty());
                    self.groups.push(ActiveGroup { title: None, paths });
                    assert(groups_model(self.groups@) =~= before.push(
                        GroupModel { title: None, paths: Seq::empty() },
                    ));
                } else if is_named(name, "path") {
                    if self.path.is_some() {
                        return Err(ArtworkError::NestedPath);
                    }
                    self.path = Some(ActivePath { id: copy_id(id), title: None });
                } else if is_named(name, "title") {
                    if self.inside_title {
                        return Err(ArtworkError::NestedTitle);
                    }
                    self.inside_title = true;
                }
            },
            SvgEvent::Text(text) => {
                self.read_text(text);
            },
            SvgEvent::End(name) => {
                if is_named(name, "title") {
                    if !self.inside_title {
                        return Err(ArtworkError::UnopenedTitle);
                    }
                    self.inside_title = false;
                } else if is_named(name, "path") {
                    match self.path.take() {
                        Some(path) => {
                            self.close_path(path);
                        },
                        None => {
                            return Err(ArtworkError::UnopenedPath);
                        },
                    }
                } else if is_named(name, "g") {
                    if self.groups.len() == 0 {
                        return Err(ArtworkError::UnopenedGroup);
                    }
                    self.close_group();
                }
            },
            SvgEvent::Empty(name, id) => {
                if is_named(name, "path") {
                    self.close_path(ActivePath { id: copy_id(id), title: None });
                }
            },
            SvgEvent::Other => {},
        }
        Ok(())
    }
}

/// Finds the title that each shape of a document goes by, from the events of reading it. A
/// shape has its own title, or else the one that the group directly around it hands down
/// when it closes.
pub fn correlate_id_to_title(events: &Vec<SvgEvent>) -> (res: Result<
    Vec<(String, u16)>,
    ArtworkError,
>)
    ensures
        match titles_of(events@) {
            Ok(titles) => res matches Ok(found) && titles_model(found@) == titles && distinct_ids(
                titles,
            ),
            Err(e) => res == Err::<Vec<(String, u16)>, ArtworkError>(e),
        },
{
    let mut scan: Scan = Scan::new();
    let mut n: usize = 0;
    while n < events.len()
        invariant
            n <= events@.len(),
            distinct_ids(scan@.titles),
            ScanModel::after(events@, n as int) == Ok::<ScanModel, ArtworkError>(scan@),
        decreases events@.len() - n,
    {
        match scan.step(&events[n]) {
            Ok(_) => {},
            Err(e) => {
                proof {
                    lemma_malformed_stays(events@, n + 1, events@.len() as int);
                }
                return Err(e);
            },
        }
        n += 1;
    }
    Ok(scan.titles)
}

/// Once a document is found malformed, the events after that change nothing.
pub proof fn lemma_malformed_stays(events: Seq<SvgEvent>, m: int, n: int)
    requires
        0 <= m <= n,
        ScanModel::after(events, m) is Err,
    ensures
        ScanModel::after(events, n) == ScanModel::after(events, m),
    decreases n - m,
{
    if m < n {
        lemma_malformed_stays(events, m, n - 1);
    }
}

/// Reads a document of artwork and finds the title that each of its shapes goes by.
pub fn titles_of_document(contents: &str) -> (res: Result<Vec<(String, u16)>, ArtworkError>)
    ensures
        match svg_events(contents@, "id"@) {
            None => res == Err::<Vec<(String, u16)>, ArtworkError>(ArtworkError::Unreadable),
            Some(events) => match titles_of(events) {
                Ok(titles) => res matches Ok(found) && titles_model(found@) == titles
                    && distinct_ids(titles),
                Err(e) => res == Err::<Vec<(String, u16)>, ArtworkError>(e),
            },
        },
{
    match read_events(contents, "id") {
        Some(events) => correlate_id_to_title(&events),
        None => Err(ArtworkError::Unreadable),
    }
}

/// Whether a node of the artwork is kept for drawing: every node that is no shape, and each
/// shape that has an identifier and goes by a title.
pub open spec fn is_kept_node(path_id: Option<Seq<char>>, titles: TitleList) -> bool {
    match path_id {
        None => true,
        Some(id) => id.len() > 0 && has_title(titles, id),
    }
}

/// Tells whether a node of the artwork is kept for drawing. A node that is a shape comes
/// with the shape's identifier, which may be empty; any other node comes with none.
pub fn keep_usvg_node(path_id: Option<&String>, svg_id_to_title: &Vec<(String, u16)>) -> (res: bool)
    ensures
        res == is_kept_node(
            match path_id {
                Some(id) => Some(id@),
                None => None,
            },
            titles_model(svg_id_to_title@),
        ),
{
    match path_id {
        None => true,
        Some(id) => {
            if id.as_str().unicode_len() == 0 {
                return false;
            }
            find_title(svg_id_to_title, id).is_some()
        },
    }
}

/// The title that a shape goes by.
pub fn title_for(svg_id_to_title: &Vec<(String, u16)>, id: &String) -> (res: Option<u16>)
    ensures
        match res {
            Some(title) => exists|i: int|
                0 <= i < svg_id_to_title@.len() && (#[trigger] titles_model(
                    svg_id_to_title@,
                )[i]) == (id@, title),
            None => !has_title(titles_model(svg_id_to_title@), id@),
        },
{
    match find_title(svg_id_to_title, id) {
        Some(i) => Some(svg_id_to_title[i].1),
        None => None,
    }
}

/// Whether `drawing` is a pixel buffer of the size that the artwork is drawn at.
pub open spec fn is_drawing(drawing: Canvas, dimensions: ImageDimensions) -> bool {
    drawing.wf() && drawing.width == dimensions.width && drawing.height == dimensions.height
}

/// The owners of the pixels after the first `n` shapes: each shape, drawn alone and laid at
/// the artwork's place, owns the pixels that it left a trace on. Where two shapes left a
/// trace on one pixel, the later one owns it.
pub open spec fn owners_after(
    shapes: Seq<(Canvas, u16)>,
    dimensions: ImageDimensions,
    width: u32,
    height: u32,
    n: int,
) -> Seq<Option<u16>>
    decreases n,
{
    if n <= 0 {
        Seq::new((width * height) as nat, |i: int| None::<u16>)
    } else {
        owners_marked(
            owners_after(shapes, dimensions, width, height, n - 1),
            aligned_bytes(width, height, dimensions, shapes[n - 1].0.data@),
            shapes[n - 1].1,
        )
    }
}

/// Whether `place` is the first among the drawings of the shapes that is no drawing.
pub open spec fn is_first_undrawn(
    shapes: Seq<(Canvas, u16)>,
    dimensions: ImageDimensions,
    place: int,
) -> bool {
    &&& 0 <= place < shapes.len()
    &&& !is_drawing(shapes[place].0, dimensions)
    &&& forall|k: int| 0 <= k < place ==> is_drawing((#[trigger] shapes[k]).0, dimensions)
}

/// Tells whether `drawing` is a pixel buffer of the size that the artwork is drawn at.
pub fn check_drawing(drawing: &Canvas, dimensions: &ImageDimensions) -> (res: bool)
    ensures
        res == is_drawing(*drawing, *dimensions),
{
    is_pixel_buffer(drawing) && drawing.width == dimensions.width && drawing.height
        == dimensions.height
}

/// Puts the artwork of a screen together from its drawings: each titled shape drawn alone,
/// with its title, and the whole drawn in the colours that mark the titles. The shapes give
/// the pixels their owners, and the whole is brought to the colours it is shown in. With the
/// artwork comes the number of its pixels whose title has no colour.
pub fn build_svg(
    dimensions: &ImageDimensions,
    shapes: &Vec<(Canvas, u16)>,
    whole: &Canvas,
    colours: &Vec<(u16, Rgba)>,
    width: u32,
    height: u32,
) -> (res: Result<(RenderedSVG, usize), ArtworkError>)
    requires
        1 <= width <= MAX_SIDE,
        1 <= height <= MAX_SIDE,
    ensures
        match res {
            Ok((svg, unresolved)) => {
                &&& unresolved == unresolved_count(
                    colours@,
                    aligned_bytes(width, height, *dimensions, whole.data@),
                    width * height,
                )
                &&& forall|k: int|
                    0 <= k < shapes@.len() ==> is_drawing((#[trigger] shapes@[k]).0, *dimensions)
                &&& is_drawing(*whole, *dimensions)
                &&& svg.pixmap.wf()
                &&& svg.pixmap.width == width
                &&& svg.pixmap.height == height
                &&& svg.pixmap.data@ == shown_bytes(
                    colours@,
                    aligned_bytes(width, height, *dimensions, whole.data@),
                )
                &&& svg.pixel_pos_to_id@.wf()
                &&& svg.pixel_pos_to_id@.width == width
                &&& svg.pixel_pos_to_id@.height == height
                &&& svg.pixel_pos_to_id@.cells == owners_after(
                    shapes@,
                    *dimensions,
                    width,
                    height,
                    shapes@.len() as int,
                )
            },
            Err(ArtworkError::NotDrawn { place }) => if place < shapes@.len() {
                is_first_undrawn(shapes@, *dimensions, place as int)
            } else {
                &&& place == shapes@.len()
                &&& !is_drawing(*whole, *dimensions)
                &&& forall|k: int|
                    0 <= k < shapes@.len() ==> is_drawing((#[trigger] shapes@[k]).0, *dimensions)
            },
            Err(_) => false,
        },
{
    proof {
        lemma_pixel_count(width, height);
    }
    let mut pixel_pos_to_id: PixelIDMap = PixelIDMap::new(width as usize, height as usize).unwrap();
    let mut n: usize = 0;
    while n < shapes.len()
        invariant
            n <= shapes@.len(),
            1 <= width <= MAX_SIDE,
            1 <= height <= MAX_SIDE,
            pixel_pos_to_id@.wf(),
            pixel_pos_to_id@.width == width,
            pixel_pos_to_id@.height == height,
            pixel_pos_to_id@.cells == owners_after(shapes@, *dimensions, width, height, n as int),
            forall|k: int| 0 <= k < n ==> is_drawing((#[trigger] shapes@[k]).0, *dimensions),
        decreases shapes@.len() - n,
    {
        if !check_drawing(&shapes[n].0, dimensions) {
            assert(is_first_undrawn(shapes@, *dimensions, n as int));
            return Err(ArtworkError::NotDrawn { place: n });
        }
        let mut alone: Canvas = lay_image(&shapes[n].0, *dimensions, width, height);
        record_ids(&mut pixel_pos_to_id, &mut alone, shapes[n].1);
        n += 1;
    }
    if !check_drawing(whole, dimensions) {
        return Err(ArtworkError::NotDrawn { place: n });
    }
    let mut pixmap: Canvas = lay_image(whole, *dimensions, width, height);
    let unresolved: usize = show_colors(&mut pixmap, colours);
    Ok((RenderedSVG { pixmap, pixel_pos_to_id }, unresolved))
}

} // verus!
