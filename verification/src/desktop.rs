//! The decisions behind the desktop integration: the unread count read
//! from the page title, the tray's tooltip and badge, the tray menu, the
//! handling of launches and window labels, and notification texts.
use vstd::prelude::*;

use crate::text::{
    all_digits,
    chars_of,
    concat,
    decimal,
    digits_value,
    find_char,
    first_index_of,
    has_prefix,
    lemma_decimal,
    lemma_first_index_of,
    lemma_first_index_of_append,
    lemma_trim_unchanged,
    parse_u32,
    parse_u32_text,
    push_decimal,
    starts_with,
    text_eq,
    trim,
    trim_chars,
};

verus! {

broadcast use vstd::string::group_string_axioms;

/// The label of the main window.
pub const MAIN_WINDOW: &'static str = "main";

/// The prefix of an argument that is a mailto link.
pub const MAILTO_PREFIX: &'static str = "mailto:";

/// The application name shown in the tray and on notifications.
pub const APP_NAME: &'static str = "Outlook";

// ---------------------------------------------------------------------------
// Unread count
// ---------------------------------------------------------------------------

/// The text of the first parenthesised group of a title: what lies between
/// the first `(` and the first `)` or `(` after it. `None` when the title
/// has no `(`, or when the title ends before either comes.
pub open spec fn unread_group(title: Seq<char>) -> Option<Seq<char>> {
    let open = first_index_of(title, '(');
    if open == title.len() {
        None
    } else {
        let rest = title.subrange(open + 1, title.len() as int);
        let close = first_index_of(rest, ')');
        let next = first_index_of(rest, '(');
        let end = if close < next {
            close
        } else {
            next
        };
        if end == rest.len() {
            None
        } else {
            Some(rest.take(end))
        }
    }
}

/// The unread count of a page title: the number in its first parenthesised
/// group (white space around it allowed), 0 when that group is no number or
/// the title has no group.
pub open spec fn unread_count(title: Seq<char>) -> u32 {
    match unread_group(title) {
        None => 0,
        Some(group) => match parse_u32_text(trim(group)) {
            Some(n) => n,
            None => 0,
        },
    }
}

/// Unread count from the page title: Outlook puts "(N)" in the title when
/// there is unread mail. The first "(N)" group wins, 0 otherwise.
pub fn parse_unread(title: &str) -> (n: u32)
    ensures
        n == unread_count(title@),
{
    let t = chars_of(title);
    let len = t.len();
    let open = find_char(t.as_slice(), 0, '(');
    assert(t@.subrange(0, len as int) == t@);
    if open == len {
        return 0;
    }
    let ghost rest = t@.subrange(open + 1, len as int);
    let next_open = find_char(t.as_slice(), open + 1, '(');
    let close = find_char(t.as_slice(), open + 1, ')');
    proof {
        lemma_first_index_of(rest, '(');
        lemma_first_index_of(rest, ')');
    }
    let end = if close < next_open {
        close
    } else {
        next_open
    };
    if end == len {
        return 0;
    }
    let mut group: Vec<char> = Vec::new();
    let mut i = open + 1;
    while i < end
        invariant
            open + 1 <= i <= end <= len,
            len == t@.len(),
            group@ == t@.subrange(open + 1, i as int),
        decreases end - i,
    {
        group.push(t[i]);
        assert(group@ =~= t@.subrange(open + 1, i + 1));
        i = i + 1;
    }
    assert(group@ =~= rest.take(end - open - 1));
    let trimmed = trim_chars(group.as_slice());
    match parse_u32(trimmed.as_slice()) {
        Some(n) => n,
        None => 0,
    }
}

/// A title without `(` has no unread count.
pub proof fn unread_count_without_group(title: Seq<char>)
    requires
        !title.contains('('),
    ensures
        unread_count(title) == 0,
{
    lemma_first_index_of(title, '(');
    if first_index_of(title, '(') < title.len() {
        assert(title[first_index_of(title, '(')] == '(');
    }
}

/// The unread count round-trips through the title: a title whose first `(`
/// opens the group `(N)`, N written in decimal, reads back as `N`.
pub proof fn unread_count_of_written_count(prefix: Seq<char>, n: u32, rest: Seq<char>)
    requires
        !prefix.contains('('),
    ensures
        unread_count(prefix + seq!['('] + decimal(n as nat) + seq![')'] + rest) == n,
{
    let d = decimal(n as nat);
    lemma_decimal(n as nat);
    let title = prefix + seq!['('] + d + seq![')'] + rest;
    assert(title =~= prefix + (seq!['('] + d + seq![')'] + rest));
    lemma_first_index_of_append(prefix, seq!['('] + d + seq![')'] + rest, '(');
    assert((seq!['('] + d + seq![')'] + rest)[0] == '(');
    assert(first_index_of(title, '(') == prefix.len());
    let after = title.subrange(prefix.len() as int + 1, title.len() as int);
    assert(after =~= d + (seq![')'] + rest));
    assert forall|j: int| 0 <= j < d.len() implies d[j] != '(' && d[j] != ')' by {
        assert(all_digits(d));
        assert(crate::text::is_digit(d[j]));
    }
    lemma_first_index_of_append(d, seq![')'] + rest, ')');
    assert((seq![')'] + rest)[0] == ')');
    let o = first_index_of(after, '(');
    lemma_first_index_of(after, '(');
    assert(o > d.len()) by {
        lemma_first_index_of_append(d, seq![')'] + rest, '(');
        lemma_first_index_of(seq![')'] + rest, '(');
    }
    assert(first_index_of(after, ')') == d.len());
    assert(after.take(d.len() as int) =~= d);
    lemma_trim_unchanged(d);
    assert(parse_u32_text(d) == Some(n));
}

// ---------------------------------------------------------------------------
// Tray
// ---------------------------------------------------------------------------

/// The icon the tray switches to.
#[derive(Debug)]
pub enum TrayIcon {
    /// The icon with the unread dot.
    Unread,
    /// The application's normal icon.
    Default,
}

/// What to do to the tray for a new unread count.
#[derive(Debug)]
pub struct TrayUpdate {
    pub tooltip: String,
    /// Whether the tray now shows the unread state.
    pub show_unread: bool,
    /// The icon to set, only when the unread state flips.
    pub icon: Option<TrayIcon>,
}

/// The tray tooltip for an unread count.
pub open spec fn tray_tooltip(unread: u32) -> Seq<char> {
    if unread > 0 {
        APP_NAME@ + ", "@ + decimal(unread as nat) + " unread"@
    } else {
        APP_NAME@
    }
}

/// Whether the tray shows the unread state: when there is unread mail.
pub fn shows_unread_badge(unread: u32) -> (r: bool)
    ensures
        r == (unread > 0),
{
    unread > 0
}

/// The tooltip names the unread count exactly when there is unread mail:
/// `Outlook, N unread` with N in decimal for every count above zero, and
/// `Outlook` for zero.
pub proof fn tray_tooltip_names_the_count(unread: u32)
    ensures
        unread > 0 ==> tray_tooltip(unread) == "Outlook, "@ + decimal(unread as nat) + " unread"@,
        unread == 0 ==> tray_tooltip(unread) == "Outlook"@,
        all_digits(decimal(unread as nat)),
        digits_value(decimal(unread as nat)) == unread,
{
    lemma_decimal(unread as nat);
    reveal_strlit("Outlook");
    reveal_strlit(", ");
    reveal_strlit("Outlook, ");
    assert(APP_NAME@ + ", "@ =~= "Outlook, "@);
}

/// The tray update for `unread` unread messages when the tray currently
/// shows the unread state `shows_unread`: the tooltip always, the icon only
/// when the unread state flips.
pub fn tray_update(unread: u32, shows_unread: bool) -> (u: TrayUpdate)
    ensures
        u.tooltip@ == tray_tooltip(unread),
        u.show_unread == (unread > 0),
        match u.icon {
            None => shows_unread == (unread > 0),
            Some(TrayIcon::Unread) => !shows_unread && unread > 0,
            Some(TrayIcon::Default) => shows_unread && unread == 0,
        },
{
    let tooltip = if unread > 0 {
        let mut t = concat(APP_NAME, ", ");
        push_decimal(&mut t, unread);
        t.append(" unread");
        t
    } else {
        APP_NAME.to_owned()
    };
    let show_unread = shows_unread_badge(unread);
    let icon = if shows_unread == show_unread {
        None
    } else if show_unread {
        Some(TrayIcon::Unread)
    } else {
        Some(TrayIcon::Default)
    };
    TrayUpdate { tooltip, show_unread, icon }
}

/// An entry of the tray menu.
#[derive(Debug)]
pub enum TrayAction {
    Open,
    Hide,
    Refresh,
    Quit,
}

/// The tray menu entry with the given id, if any.
pub fn tray_menu_action(id: &str) -> (a: Option<TrayAction>)
    ensures
        a matches Some(TrayAction::Open) <==> id@ == "open"@,
        a matches Some(TrayAction::Hide) <==> id@ == "hide"@,
        a matches Some(TrayAction::Refresh) <==> id@ == "refresh"@,
        a matches Some(TrayAction::Quit) <==> id@ == "quit"@,
{
    proof {
        reveal_strlit("open");
        reveal_strlit("hide");
        reveal_strlit("refresh");
        reveal_strlit("quit");
        assert("open"@[0] == 'o' && "hide"@[0] == 'h' && "refresh"@[0] == 'r' && "quit"@[0] == 'q');
        assert("open"@ != "hide"@ && "open"@ != "refresh"@ && "open"@ != "quit"@);
        assert("hide"@ != "refresh"@ && "hide"@ != "quit"@ && "refresh"@ != "quit"@);
    }
    if text_eq(id, "open") {
        Some(TrayAction::Open)
    } else if text_eq(id, "hide") {
        Some(TrayAction::Hide)
    } else if text_eq(id, "refresh") {
        Some(TrayAction::Refresh)
    } else if text_eq(id, "quit") {
        Some(TrayAction::Quit)
    } else {
        None
    }
}

// ---------------------------------------------------------------------------
// Launches and windows
// ---------------------------------------------------------------------------

/// Index of the first argument that is a mailto link.
pub open spec fn first_mailto_index(args: Seq<String>) -> int
    decreases args.len(),
{
    if args.len() == 0 {
        0
    } else if starts_with(args[0]@, MAILTO_PREFIX@) {
        0
    } else {
        1 + first_mailto_index(args.drop_first())
    }
}

/// The first `mailto:` argument is found wherever it stands, the last
/// argument included: `first_mailto_index` is the position of the first
/// argument that starts with `mailto:`, and the length when none does.
pub proof fn first_mailto_index_is_first_match(args: Seq<String>)
    ensures
        forall|i: int|
            0 <= i < args.len() && starts_with(#[trigger] args[i]@, "mailto:"@) && (forall|j: int|
                0 <= j < i ==> !starts_with(args[j]@, "mailto:"@)) ==> first_mailto_index(args)
                == i,
        (forall|j: int| 0 <= j < args.len() ==> !starts_with(#[trigger] args[j]@, "mailto:"@))
            ==> first_mailto_index(args) == args.len(),
{
    assert forall|i: int|
        0 <= i < args.len() && starts_with(#[trigger] args[i]@, "mailto:"@) && (forall|j: int|
            0 <= j < i ==> !starts_with(args[j]@, "mailto:"@)) implies first_mailto_index(args)
        == i by {
        lemma_first_mailto_at(args, i);
    }
    if forall|j: int| 0 <= j < args.len() ==> !starts_with(#[trigger] args[j]@, "mailto:"@) {
        lemma_no_mailto(args);
    }
}

proof fn lemma_first_mailto_at(args: Seq<String>, i: int)
    requires
        0 <= i < args.len(),
        starts_with(args[i]@, "mailto:"@),
        forall|j: int| 0 <= j < i ==> !starts_with(#[trigger] args[j]@, "mailto:"@),
    ensures
        first_mailto_index(args) == i,
    decreases i,
{
    if i > 0 {
        let rest = args.drop_first();
        assert(!starts_with(args[0]@, "mailto:"@));
        assert(rest[i - 1] == args[i]);
        assert forall|j: int| 0 <= j < i - 1 implies !starts_with(#[trigger] rest[j]@, "mailto:"@) by {
            assert(rest[j] == args[j + 1]);
        }
        lemma_first_mailto_at(rest, i - 1);
    }
}

proof fn lemma_no_mailto(args: Seq<String>)
    requires
        forall|j: int| 0 <= j < args.len() ==> !starts_with(#[trigger] args[j]@, "mailto:"@),
    ensures
        first_mailto_index(args) == args.len(),
    decreases args.len(),
{
    if args.len() > 0 {
        let rest = args.drop_first();
        assert(!starts_with(args[0]@, "mailto:"@));
        assert forall|j: int| 0 <= j < rest.len() implies !starts_with(#[trigger] rest[j]@, "mailto:"@) by {
            assert(rest[j] == args[j + 1]);
        }
        lemma_no_mailto(rest);
    }
}

/// The first argument that starts with `mailto:`, if any.
pub fn first_mailto(args: &Vec<String>) -> (r: Option<String>)
    ensures
        match r {
            Some(m) => first_mailto_index(args@) < args@.len() && m@ == args@[first_mailto_index(
                args@,
            )]@,
            None => first_mailto_index(args@) == args@.len(),
        },
{
    let n = args.len();
    let mut i: usize = 0;
    assert(args@.skip(0) =~= args@);
    while i < n
        invariant
            i <= n,
            n == args@.len(),
            first_mailto_index(args@) == i + first_mailto_index(args@.skip(i as int)),
        decreases n - i,
    {
        if has_prefix(args[i].as_str(), MAILTO_PREFIX) {
            return Some(args[i].clone());
        }
        assert(args@.skip(i as int).drop_first() =~= args@.skip(i + 1));
        i = i + 1;
    }
    None
}

/// What a second launch asks of the running instance.
#[derive(Debug)]
pub enum LaunchAction {
    /// Open a compose window for this mailto link.
    Compose(String),
    /// Bring the main window forward.
    ShowMain,
}

/// A second launch with arguments `argv` opens a compose window for its first
/// mailto argument, or else brings the main window forward.
pub fn second_launch_action(argv: &Vec<String>) -> (a: LaunchAction)
    ensures
        match a {
            LaunchAction::Compose(m) => first_mailto_index(argv@) < argv@.len() && m@
                == argv@[first_mailto_index(argv@)]@,
            LaunchAction::ShowMain => first_mailto_index(argv@) == argv@.len(),
        },
{
    match first_mailto(argv) {
        Some(m) => LaunchAction::Compose(m),
        None => LaunchAction::ShowMain,
    }
}

/// Whether a window is the main window, which hides to the tray when
/// closed and whose title carries the unread count.
pub fn is_main_window(label: &str) -> (r: bool)
    ensures
        r == (label@ == MAIN_WINDOW@),
{
    text_eq(label, MAIN_WINDOW)
}

/// The label of the `n`-th compose window: `compose-` and `n` in decimal.
pub fn compose_window_label(n: u32) -> (r: String)
    ensures
        r@ == "compose-"@ + decimal(n as nat),
{
    let mut r = "compose-".to_owned();
    push_decimal(&mut r, n);
    r
}

/// The summary and body of a desktop notification for a web notification
/// with the given title and body: the title, or the application name when
/// there is none, and the body, or nothing.
pub fn notification_text(title: Option<String>, body: Option<String>) -> (r: (String, String))
    ensures
        r.0@ == match title {
            Some(t) => t@,
            None => APP_NAME@,
        },
        r.1@ == match body {
            Some(b) => b@,
            None => Seq::<char>::empty(),
        },
{
    let summary = match title {
        Some(t) => t,
        None => APP_NAME.to_owned(),
    };
    let text = match body {
        Some(b) => b,
        None => String::new(),
    };
    (summary, text)
}

} // verus!
