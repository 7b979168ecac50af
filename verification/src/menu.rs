//! The labels and the layout of the macOS menu bar, in German and English.
//!
//! Without explicit texts the menu library fills in English defaults and
//! takes the product name from the executable, which is called "app": the
//! menu then reads "About app". Every entry is therefore named here, which
//! fixes the name and the language at once. The texts follow the terms that
//! macOS itself uses.
use vstd::prelude::*;
use crate::language::{is_german, language_code, normalize_language};
use crate::text::{chars_of, contains, joined, occurs_at, opt_text};

verus! {

/// The product name that the menu shows.
pub const APP_NAME: &'static str = "WeckPilot";

/// The labels of the menu bar's entries.
pub struct MenuLabels {
    pub about: String,
    pub hide: String,
    pub quit: String,
    pub edit: &'static str,
    pub undo: &'static str,
    pub redo: &'static str,
    pub cut: &'static str,
    pub copy: &'static str,
    pub paste: &'static str,
    pub select_all: &'static str,
    pub window: &'static str,
    pub minimize: &'static str,
    pub maximize: &'static str,
    pub close: &'static str,
}

/// The texts of a set of menu labels.
pub struct MenuLabelsView {
    pub about: Seq<char>,
    pub hide: Seq<char>,
    pub quit: Seq<char>,
    pub edit: Seq<char>,
    pub undo: Seq<char>,
    pub redo: Seq<char>,
    pub cut: Seq<char>,
    pub copy: Seq<char>,
    pub paste: Seq<char>,
    pub select_all: Seq<char>,
    pub window: Seq<char>,
    pub minimize: Seq<char>,
    pub maximize: Seq<char>,
    pub close: Seq<char>,
}

impl View for MenuLabels {
    type V = MenuLabelsView;

    open spec fn view(&self) -> MenuLabelsView {
        MenuLabelsView {
            about: self.about@,
            hide: self.hide@,
            quit: self.quit@,
            edit: self.edit@,
            undo: self.undo@,
            redo: self.redo@,
            cut: self.cut@,
            copy: self.copy@,
            paste: self.paste@,
            select_all: self.select_all@,
            window: self.window@,
            minimize: self.minimize@,
            maximize: self.maximize@,
            close: self.close@,
        }
    }
}

/// The German labels.
pub open spec fn german_labels() -> MenuLabelsView {
    MenuLabelsView {
        about: "Über WeckPilot"@,
        hide: "WeckPilot ausblenden"@,
        quit: "WeckPilot beenden"@,
        edit: "Bearbeiten"@,
        undo: "Widerrufen"@,
        redo: "Wiederholen"@,
        cut: "Ausschneiden"@,
        copy: "Kopieren"@,
        paste: "Einsetzen"@,
        select_all: "Alles auswählen"@,
        window: "Fenster"@,
        minimize: "Im Dock ablegen"@,
        maximize: "Zoomen"@,
        close: "Schließen"@,
    }
}

/// The English labels.
pub open spec fn english_labels() -> MenuLabelsView {
    MenuLabelsView {
        about: "About WeckPilot"@,
        hide: "Hide WeckPilot"@,
        quit: "Quit WeckPilot"@,
        edit: "Edit"@,
        undo: "Undo"@,
        redo: "Redo"@,
        cut: "Cut"@,
        copy: "Copy"@,
        paste: "Paste"@,
        select_all: "Select All"@,
        window: "Window"@,
        minimize: "Minimize"@,
        maximize: "Zoom"@,
        close: "Close"@,
    }
}

/// The labels for a language code: German for exactly "de", English for
/// every other code.
pub open spec fn labels_for(language: Seq<char>) -> MenuLabelsView {
    if language == "de"@ {
        german_labels()
    } else {
        english_labels()
    }
}

/// Whether `s` is exactly "de".
fn is_de(s: &str) -> (b: bool)
    ensures
        b == (s@ == "de"@),
{
    proof {
        reveal_strlit("de");
    }
    let v = chars_of(s);
    if v.len() == 2 && v[0] == 'd' && v[1] == 'e' {
        assert(v@ =~= "de"@);
        true
    } else {
        false
    }
}

/// The labels of the menu bar for a language code ("de" or anything else,
/// which means English).
pub fn menu_labels(language: &str) -> (l: MenuLabels)
    ensures
        l@ == labels_for(language@),
{
    proof {
        reveal_strlit("Über ");
        reveal_strlit("Über WeckPilot");
        reveal_strlit(" ausblenden");
        reveal_strlit("WeckPilot ausblenden");
        reveal_strlit(" beenden");
        reveal_strlit("WeckPilot beenden");
        reveal_strlit("About ");
        reveal_strlit("About WeckPilot");
        reveal_strlit("Hide ");
        reveal_strlit("Hide WeckPilot");
        reveal_strlit("Quit ");
        reveal_strlit("Quit WeckPilot");
        reveal_strlit("WeckPilot");
    }
    if is_de(language) {
        let l = MenuLabels {
            about: joined("Über ", APP_NAME),
            hide: joined(APP_NAME, " ausblenden"),
            quit: joined(APP_NAME, " beenden"),
            edit: "Bearbeiten",
            undo: "Widerrufen",
            redo: "Wiederholen",
            cut: "Ausschneiden",
            copy: "Kopieren",
            paste: "Einsetzen",
            select_all: "Alles auswählen",
            window: "Fenster",
            minimize: "Im Dock ablegen",
            maximize: "Zoomen",
            close: "Schließen",
        };
        assert(l.about@ =~= "Über WeckPilot"@);
        assert(l.hide@ =~= "WeckPilot ausblenden"@);
        assert(l.quit@ =~= "WeckPilot beenden"@);
        l
    } else {
        let l = MenuLabels {
            about: joined("About ", APP_NAME),
            hide: joined("Hide ", APP_NAME),
            quit: joined("Quit ", APP_NAME),
            edit: "Edit",
            undo: "Undo",
            redo: "Redo",
            cut: "Cut",
            copy: "Copy",
            paste: "Paste",
            select_all: "Select All",
            window: "Window",
            minimize: "Minimize",
            maximize: "Zoom",
            close: "Close",
        };
        assert(l.about@ =~= "About WeckPilot"@);
        assert(l.hide@ =~= "Hide WeckPilot"@);
        assert(l.quit@ =~= "Quit WeckPilot"@);
        l
    }
}

/// `s` ends with `suffix`.
pub open spec fn ends_with(s: Seq<char>, suffix: Seq<char>) -> bool {
    suffix.len() <= s.len() && s.skip(s.len() - suffix.len()) == suffix
}

/// For every language, the About, Hide and Quit entries name the product,
/// and none of them carries the executable's name "app" at its end.
pub proof fn lemma_labels_name_the_product(language: Seq<char>)
    ensures
        contains(labels_for(language).about, APP_NAME@),
        contains(labels_for(language).hide, APP_NAME@),
        contains(labels_for(language).quit, APP_NAME@),
        !ends_with(labels_for(language).about, " app"@),
        !ends_with(labels_for(language).hide, " app"@),
        !ends_with(labels_for(language).quit, " app"@),
{
    reveal_strlit("WeckPilot");
    reveal_strlit(" app");
    reveal_strlit("Über WeckPilot");
    reveal_strlit("WeckPilot ausblenden");
    reveal_strlit("WeckPilot beenden");
    reveal_strlit("About WeckPilot");
    reveal_strlit("Hide WeckPilot");
    reveal_strlit("Quit WeckPilot");
    let l = labels_for(language);
    let name = APP_NAME@;
    if language == "de"@ {
        assert(l.about.subrange(5, 14) =~= name);
        assert(occurs_at(l.about, name, 5));
        assert(l.hide.subrange(0, 9) =~= name);
        assert(occurs_at(l.hide, name, 0));
        assert(l.quit.subrange(0, 9) =~= name);
        assert(occurs_at(l.quit, name, 0));
        assert(l.about.last() != " app"@.last());
        assert(l.hide.last() != " app"@.last());
        assert(l.quit.last() != " app"@.last());
    } else {
        assert(l.about.subrange(6, 15) =~= name);
        assert(occurs_at(l.about, name, 6));
        assert(l.hide.subrange(5, 14) =~= name);
        assert(occurs_at(l.hide, name, 5));
        assert(l.quit.subrange(5, 14) =~= name);
        assert(occurs_at(l.quit, name, 5));
        assert(l.about.last() != " app"@.last());
        assert(l.hide.last() != " app"@.last());
        assert(l.quit.last() != " app"@.last());
    }
    assert forall|s: Seq<char>| s.len() > 0 && s.last() != " app"@.last() implies !ends_with(
        s,
        " app"@,
    ) by {
        if ends_with(s, " app"@) {
            assert(s.skip(s.len() - 4)[3] == s.last());
        }
    }
}

/// Every entry is translated: in German and in English each label differs,
/// and no label is empty.
pub proof fn lemma_every_label_translated()
    ensures
        german_labels().about != english_labels().about,
        german_labels().hide != english_labels().hide,
        german_labels().quit != english_labels().quit,
        german_labels().edit != english_labels().edit,
        german_labels().undo != english_labels().undo,
        german_labels().redo != english_labels().redo,
        german_labels().cut != english_labels().cut,
        german_labels().copy != english_labels().copy,
        german_labels().paste != english_labels().paste,
        german_labels().select_all != english_labels().select_all,
        german_labels().window != english_labels().window,
        german_labels().minimize != english_labels().minimize,
        german_labels().maximize != english_labels().maximize,
        german_labels().close != english_labels().close,
        german_labels().about.len() > 0,
        german_labels().hide.len() > 0,
        german_labels().quit.len() > 0,
        german_labels().edit.len() > 0,
        german_labels().undo.len() > 0,
        german_labels().redo.len() > 0,
        german_labels().cut.len() > 0,
        german_labels().copy.len() > 0,
        german_labels().paste.len() > 0,
        german_labels().select_all.len() > 0,
        german_labels().window.len() > 0,
        german_labels().minimize.len() > 0,
        german_labels().maximize.len() > 0,
        german_labels().close.len() > 0,
        english_labels().about.len() > 0,
        english_labels().hide.len() > 0,
        english_labels().quit.len() > 0,
        english_labels().edit.len() > 0,
        english_labels().undo.len() > 0,
        english_labels().redo.len() > 0,
        english_labels().cut.len() > 0,
        english_labels().copy.len() > 0,
        english_labels().paste.len() > 0,
        english_labels().select_all.len() > 0,
        english_labels().window.len() > 0,
        english_labels().minimize.len() > 0,
        english_labels().maximize.len() > 0,
        english_labels().close.len() > 0,
{
    reveal_strlit("Über WeckPilot");
    reveal_strlit("WeckPilot ausblenden");
    reveal_strlit("WeckPilot beenden");
    reveal_strlit("Bearbeiten");
    reveal_strlit("Widerrufen");
    reveal_strlit("Wiederholen");
    reveal_strlit("Ausschneiden");
    reveal_strlit("Kopieren");
    reveal_strlit("Einsetzen");
    reveal_strlit("Alles auswählen");
    reveal_strlit("Fenster");
    reveal_strlit("Im Dock ablegen");
    reveal_strlit("Zoomen");
    reveal_strlit("Schließen");
    reveal_strlit("About WeckPilot");
    reveal_strlit("Hide WeckPilot");
    reveal_strlit("Quit WeckPilot");
    reveal_strlit("Edit");
    reveal_strlit("Undo");
    reveal_strlit("Redo");
    reveal_strlit("Cut");
    reveal_strlit("Copy");
    reveal_strlit("Paste");
    reveal_strlit("Select All");
    reveal_strlit("Window");
    reveal_strlit("Minimize");
    reveal_strlit("Zoom");
    reveal_strlit("Close");
    let de = german_labels();
    let en = english_labels();
    assert(de.edit.len() != en.edit.len());
    assert(de.undo.len() != en.undo.len());
    assert(de.redo.len() != en.redo.len());
    assert(de.cut.len() != en.cut.len());
    assert(de.copy.len() != en.copy.len());
    assert(de.paste.len() != en.paste.len());
    assert(de.select_all.len() != en.select_all.len());
    assert(de.window.len() != en.window.len());
    assert(de.minimize.len() != en.minimize.len());
    assert(de.maximize.len() != en.maximize.len());
    assert(de.close.len() != en.close.len());
    assert(de.about[0] != en.about[0]);
    assert(de.hide[0] != en.hide[0]);
    assert(de.quit[0] != en.quit[0]);
}

/// The copyright line of the About panel.
pub const COPYRIGHT: &'static str = "Copyright © 2026 Norbert Jander";

/// What the About panel shows.
pub struct AboutInfo {
    pub name: String,
    pub version: String,
    pub copyright: String,
    pub credits: String,
}

/// The About panel: the product's name, the package's version, the
/// copyright line and the credits (the licence's text).
pub fn about_info(version: &str, credits: &str) -> (info: AboutInfo)
    ensures
        info.name@ == APP_NAME@,
        info.version@ == version@,
        info.copyright@ == COPYRIGHT@,
        info.credits@ == credits@,
{
    AboutInfo {
        name: String::from_str(APP_NAME),
        version: String::from_str(version),
        copyright: String::from_str(COPYRIGHT),
        credits: String::from_str(credits),
    }
}

/// The kinds of entry that the menu bar holds, each a predefined item of
/// the platform's menu.
#[derive(PartialEq, Eq, Structural, Clone, Copy, Debug)]
pub enum MenuItemKind {
    About,
    Separator,
    Hide,
    Quit,
    Undo,
    Redo,
    Cut,
    Copy,
    Paste,
    SelectAll,
    Minimize,
    Maximize,
    CloseWindow,
}

/// One entry of a submenu, with the text it shows (a separator has none).
pub struct MenuItem {
    pub kind: MenuItemKind,
    pub label: Option<String>,
}

impl View for MenuItem {
    type V = (MenuItemKind, Option<Seq<char>>);

    open spec fn view(&self) -> (MenuItemKind, Option<Seq<char>>) {
        (self.kind, opt_text(self.label))
    }
}

/// A submenu of the menu bar: its title and its entries in order.
pub struct Submenu {
    pub title: String,
    pub items: Vec<MenuItem>,
}

impl View for Submenu {
    type V = (Seq<char>, Seq<(MenuItemKind, Option<Seq<char>>)>);

    open spec fn view(&self) -> (Seq<char>, Seq<(MenuItemKind, Option<Seq<char>>)>) {
        (self.title@, self.items@.map_values(|i: MenuItem| i@))
    }
}

/// The menu bar for a language code: the application menu, named after the
/// product, the edit menu, without which macOS passes no Cmd+C/V/A to the
/// web view, and the window menu.
pub open spec fn layout_for(language: Seq<char>) -> Seq<
    (Seq<char>, Seq<(MenuItemKind, Option<Seq<char>>)>),
> {
    let l = labels_for(language);
    seq![
        (
            APP_NAME@,
            seq![
                (MenuItemKind::About, Some(l.about)),
                (MenuItemKind::Separator, None),
                (MenuItemKind::Hide, Some(l.hide)),
                (MenuItemKind::Separator, None),
                (MenuItemKind::Quit, Some(l.quit)),
            ],
        ),
        (
            l.edit,
            seq![
                (MenuItemKind::Undo, Some(l.undo)),
                (MenuItemKind::Redo, Some(l.redo)),
                (MenuItemKind::Separator, None),
                (MenuItemKind::Cut, Some(l.cut)),
                (MenuItemKind::Copy, Some(l.copy)),
                (MenuItemKind::Paste, Some(l.paste)),
                (MenuItemKind::SelectAll, Some(l.select_all)),
            ],
        ),
        (
            l.window,
            seq![
                (MenuItemKind::Minimize, Some(l.minimize)),
                (MenuItemKind::Maximize, Some(l.maximize)),
                (MenuItemKind::Separator, None),
                (MenuItemKind::CloseWindow, Some(l.close)),
            ],
        ),
    ]
}

/// An entry with a label.
fn labelled(kind: MenuItemKind, label: String) -> (i: MenuItem)
    ensures
        i@ == (kind, Some(label@)),
{
    MenuItem { kind, label: Some(label) }
}

/// An entry with a label given as text.
fn labelled_str(kind: MenuItemKind, label: &str) -> (i: MenuItem)
    ensures
        i@ == (kind, Some(label@)),
{
    MenuItem { kind, label: Some(String::from_str(label)) }
}

/// A separator.
fn separator() -> (i: MenuItem)
    ensures
        i@ == (MenuItemKind::Separator, Option::<Seq<char>>::None),
{
    MenuItem { kind: MenuItemKind::Separator, label: None }
}

/// The menu bar for a language code ("de" or anything else, which means
/// English), with the labels of `menu_labels`.
pub fn menu_layout(language: &str) -> (bar: Vec<Submenu>)
    ensures
        bar@.map_values(|s: Submenu| s@) == layout_for(language@),
{
    let l = menu_labels(language);
    let ghost lv = l@;
    let mut app_items: Vec<MenuItem> = Vec::new();
    app_items.push(labelled(MenuItemKind::About, l.about));
    app_items.push(separator());
    app_items.push(labelled(MenuItemKind::Hide, l.hide));
    app_items.push(separator());
    app_items.push(labelled(MenuItemKind::Quit, l.quit));
    let mut edit_items: Vec<MenuItem> = Vec::new();
    edit_items.push(labelled_str(MenuItemKind::Undo, l.undo));
    edit_items.push(labelled_str(MenuItemKind::Redo, l.redo));
    edit_items.push(separator());
    edit_items.push(labelled_str(MenuItemKind::Cut, l.cut));
    edit_items.push(labelled_str(MenuItemKind::Copy, l.copy));
    edit_items.push(labelled_str(MenuItemKind::Paste, l.paste));
    edit_items.push(labelled_str(MenuItemKind::SelectAll, l.select_all));
    let mut window_items: Vec<MenuItem> = Vec::new();
    window_items.push(labelled_str(MenuItemKind::Minimize, l.minimize));
    window_items.push(labelled_str(MenuItemKind::Maximize, l.maximize));
    window_items.push(separator());
    window_items.push(labelled_str(MenuItemKind::CloseWindow, l.close));
    let app_menu = Submenu { title: String::from_str(APP_NAME), items: app_items };
    let edit_menu = Submenu { title: String::from_str(l.edit), items: edit_items };
    let window_menu = Submenu { title: String::from_str(l.window), items: window_items };
    let ghost layout = layout_for(language@);
    assert(app_menu@ =~= layout[0]);
    assert(edit_menu@ =~= layout[1]);
    assert(window_menu@ =~= layout[2]);
    let mut bar: Vec<Submenu> = Vec::new();
    bar.push(app_menu);
    bar.push(edit_menu);
    bar.push(window_menu);
    assert(bar@.map_values(|s: Submenu| s@) =~= layout);
    bar
}

/// The menu bar that a language tag from the interface gets: the tag is
/// normalized first, so German for a tag that begins with "de", English
/// for every other.
pub fn menu_for_language(raw: &str) -> (bar: Vec<Submenu>)
    ensures
        bar@.map_values(|s: Submenu| s@) == layout_for(language_code(raw@)),
{
    menu_layout(normalize_language(raw))
}

/// The labels follow the language rule: German exactly for the tags that
/// the rule calls German.
pub proof fn lemma_menu_follows_language_rule(raw: Seq<char>)
    ensures
        labels_for(language_code(raw)) == (if is_german(raw) {
            german_labels()
        } else {
            english_labels()
        }),
{
    reveal_strlit("de");
    reveal_strlit("en");
    assert("de"@ != "en"@) by {
        assert("de"@[0] != "en"@[0]);
    }
}

/// Only the exact code "de" gets the German labels; every other code,
/// whatever its case or content, gets the English ones.
pub proof fn lemma_only_de_is_german(language: Seq<char>)
    ensures
        language == "de"@ ==> labels_for(language) == german_labels(),
        language != "de"@ ==> labels_for(language) == english_labels(),
        german_labels() != english_labels(),
{
    lemma_every_label_translated();
}

/// The label that an entry of a given kind shows; a separator shows none.
pub open spec fn label_of(kind: MenuItemKind, l: MenuLabelsView) -> Option<Seq<char>> {
    match kind {
        MenuItemKind::About => Some(l.about),
        MenuItemKind::Separator => None,
        MenuItemKind::Hide => Some(l.hide),
        MenuItemKind::Quit => Some(l.quit),
        MenuItemKind::Undo => Some(l.undo),
        MenuItemKind::Redo => Some(l.redo),
        MenuItemKind::Cut => Some(l.cut),
        MenuItemKind::Copy => Some(l.copy),
        MenuItemKind::Paste => Some(l.paste),
        MenuItemKind::SelectAll => Some(l.select_all),
        MenuItemKind::Minimize => Some(l.minimize),
        MenuItemKind::Maximize => Some(l.maximize),
        MenuItemKind::CloseWindow => Some(l.close),
    }
}

/// In the menu bar every entry shows the label of its own kind in the
/// chosen language, separators show none; the application menu is named
/// after the product, the others carry their translated titles; and the
/// edit menu holds the clipboard entries that the web view needs.
pub proof fn lemma_layout_labels_match_kinds(language: Seq<char>)
    ensures
        layout_for(language).len() == 3,
        forall|i: int, j: int|
            0 <= i < 3 && 0 <= j < layout_for(language)[i].1.len() ==> (#[trigger] layout_for(
                language,
            )[i].1[j]).1 == label_of(layout_for(language)[i].1[j].0, labels_for(language)),
        layout_for(language)[0].0 == APP_NAME@,
        layout_for(language)[1].0 == labels_for(language).edit,
        layout_for(language)[2].0 == labels_for(language).window,
        ({
            let edit = layout_for(language)[1].1;
            &&& exists|j: int| 0 <= j < edit.len() && (#[trigger] edit[j]).0 == MenuItemKind::Cut
            &&& exists|j: int| 0 <= j < edit.len() && (#[trigger] edit[j]).0 == MenuItemKind::Copy
            &&& exists|j: int| 0 <= j < edit.len() && (#[trigger] edit[j]).0 == MenuItemKind::Paste
            &&& exists|j: int|
                0 <= j < edit.len() && (#[trigger] edit[j]).0 == MenuItemKind::SelectAll
        }),
{
    let b = layout_for(language);
    let edit = b[1].1;
    assert(edit[3].0 == MenuItemKind::Cut);
    assert(edit[4].0 == MenuItemKind::Copy);
    assert(edit[5].0 == MenuItemKind::Paste);
    assert(edit[6].0 == MenuItemKind::SelectAll);
}

} // verus!
