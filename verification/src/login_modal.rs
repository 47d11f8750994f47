//! The form in which the server, the user and the password are entered.

use vstd::prelude::*;
use crate::config::{config_of, NavidromeConfig, NavidromeConfigView};
use crate::input::{KeyCode, KeyEvent};
use crate::text::{join2, trim, trimmed, view_opt, views};
use crate::theme::Theme;
use crate::ui::geometry::{least, less, minus, Rect};
use crate::ui::layout::{can_be_met, demand, extent, is_met, is_split, split, start, Constraint, Direction};
use crate::ui::scene::{
    line1, line_of, nothing, put, span, Align, Draw, DrawView, Line, Style,
};
use vstd::utf8::encode_utf8;

verus! {

/// The address that the form starts with.
pub const DEFAULT_SERVER: &'static str = "http://localhost:4533";

#[derive(Debug, Clone, Copy, PartialEq, Eq, Structural)]
pub enum LoginField {
    ServerUrl,
    Username,
    Password,
    Submit,
}

impl LoginField {
    pub open spec fn following(self) -> LoginField {
        match self {
            LoginField::ServerUrl => LoginField::Username,
            LoginField::Username => LoginField::Password,
            LoginField::Password => LoginField::Submit,
            LoginField::Submit => LoginField::ServerUrl,
        }
    }

    pub open spec fn preceding(self) -> LoginField {
        match self {
            LoginField::ServerUrl => LoginField::Submit,
            LoginField::Username => LoginField::ServerUrl,
            LoginField::Password => LoginField::Username,
            LoginField::Submit => LoginField::Password,
        }
    }

    pub fn next(self) -> (r: Self)
        ensures
            r == self.following(),
    {
        match self {
            LoginField::ServerUrl => LoginField::Username,
            LoginField::Username => LoginField::Password,
            LoginField::Password => LoginField::Submit,
            LoginField::Submit => LoginField::ServerUrl,
        }
    }

    pub fn prev(self) -> (r: Self)
        ensures
            r == self.preceding(),
    {
        match self {
            LoginField::ServerUrl => LoginField::Submit,
            LoginField::Username => LoginField::ServerUrl,
            LoginField::Password => LoginField::Username,
            LoginField::Submit => LoginField::Password,
        }
    }
}

/// One step on and one step back undo each other.
pub proof fn law_login_fields_undo(f: LoginField)
    ensures
        f.following().preceding() == f,
        f.preceding().following() == f,
{
}

/// Four steps on lead around the form, and every field is met on the way.
pub proof fn law_login_fields_cycle(f: LoginField, g: LoginField)
    ensures
        f.following().following().following().following() == f,
        g == f || g == f.following() || g == f.following().following() || g
            == f.following().following().following(),
{
}

#[derive(Debug)]
pub struct LoginModalState {
    pub server_url: String,
    pub username: String,
    pub password: String,
    pub active_field: LoginField,
    pub error_message: Option<String>,
    pub is_connecting: bool,
}

#[verifier::ext_equal]
pub struct LoginModalView {
    pub server_url: Seq<char>,
    pub username: Seq<char>,
    pub password: Seq<char>,
    pub active_field: LoginField,
    pub error_message: Option<Seq<char>>,
    pub is_connecting: bool,
}

impl View for LoginModalState {
    type V = LoginModalView;

    open spec fn view(&self) -> LoginModalView {
        LoginModalView {
            server_url: self.server_url@,
            username: self.username@,
            password: self.password@,
            active_field: self.active_field,
            error_message: view_opt(self.error_message),
            is_connecting: self.is_connecting,
        }
    }
}

impl Clone for LoginModalState {
    fn clone(&self) -> (r: Self)
        ensures
            r == *self,
    {
        LoginModalState {
            server_url: self.server_url.clone(),
            username: self.username.clone(),
            password: self.password.clone(),
            active_field: self.active_field,
            error_message: self.error_message.clone(),
            is_connecting: self.is_connecting,
        }
    }
}

pub enum LoginModalAction {
    Nothing,
    Submit(NavidromeConfig),
}

pub enum LoginModalActionView {
    Nothing,
    Submit(NavidromeConfigView),
}

impl View for LoginModalAction {
    type V = LoginModalActionView;

    open spec fn view(&self) -> LoginModalActionView {
        match self {
            LoginModalAction::Nothing => LoginModalActionView::Nothing,
            LoginModalAction::Submit(c) => LoginModalActionView::Submit(c@),
        }
    }
}

impl LoginModalView {
    /// The form of a first start.
    pub open spec fn fresh() -> LoginModalView {
        LoginModalView {
            server_url: DEFAULT_SERVER@,
            username: Seq::empty(),
            password: Seq::empty(),
            active_field: LoginField::ServerUrl,
            error_message: None,
            is_connecting: false,
        }
    }

    /// The form filled in from a configuration, ready to be sent.
    pub open spec fn of_config(c: NavidromeConfigView) -> LoginModalView {
        LoginModalView {
            server_url: c.server_url,
            username: c.username,
            password: c.password,
            active_field: LoginField::Submit,
            error_message: None,
            is_connecting: false,
        }
    }

    /// The form refused, with the field to be mended.
    pub open spec fn refused(self, message: Seq<char>, field: LoginField) -> LoginModalView {
        LoginModalView { error_message: Some(message), active_field: field, ..self }
    }

    /// Sending the form: it needs a server and a user.
    pub open spec fn submitted(self) -> (LoginModalView, LoginModalActionView) {
        if trimmed(self.server_url).len() == 0 {
            (
                self.refused("Server IP / URL cannot be empty"@, LoginField::ServerUrl),
                LoginModalActionView::Nothing,
            )
        } else if trimmed(self.username).len() == 0 {
            (
                self.refused("Username cannot be empty"@, LoginField::Username),
                LoginModalActionView::Nothing,
            )
        } else {
            (
                self,
                LoginModalActionView::Submit(
                    config_of(self.server_url, self.username, self.password),
                ),
            )
        }
    }

    /// A character typed into the active field. On the button it sends the form.
    pub open spec fn typed(self, c: char) -> (LoginModalView, LoginModalActionView) {
        match self.active_field {
            LoginField::ServerUrl => (
                LoginModalView { server_url: self.server_url.push(c), ..self },
                LoginModalActionView::Nothing,
            ),
            LoginField::Username => (
                LoginModalView { username: self.username.push(c), ..self },
                LoginModalActionView::Nothing,
            ),
            LoginField::Password => (
                LoginModalView { password: self.password.push(c), ..self },
                LoginModalActionView::Nothing,
            ),
            LoginField::Submit => self.submitted(),
        }
    }

    /// The last character of the active field taken back.
    pub open spec fn erased(self) -> LoginModalView {
        match self.active_field {
            LoginField::ServerUrl => LoginModalView {
                server_url: without_last(self.server_url),
                ..self
            },
            LoginField::Username => LoginModalView {
                username: without_last(self.username),
                ..self
            },
            LoginField::Password => LoginModalView {
                password: without_last(self.password),
                ..self
            },
            LoginField::Submit => self,
        }
    }

    /// What a key does to the form. While a connection is being made, nothing.
    pub open spec fn key(self, code: KeyCode) -> (LoginModalView, LoginModalActionView) {
        if self.is_connecting {
            (self, LoginModalActionView::Nothing)
        } else {
            match code {
                KeyCode::Tab | KeyCode::Down => (
                    LoginModalView { active_field: self.active_field.following(), ..self },
                    LoginModalActionView::Nothing,
                ),
                KeyCode::BackTab | KeyCode::Up => (
                    LoginModalView { active_field: self.active_field.preceding(), ..self },
                    LoginModalActionView::Nothing,
                ),
                KeyCode::Enter => self.submitted(),
                KeyCode::Char(c) => self.typed(c),
                KeyCode::Backspace => (self.erased(), LoginModalActionView::Nothing),
                KeyCode::Esc => (
                    LoginModalView { error_message: None, ..self },
                    LoginModalActionView::Nothing,
                ),
                _ => (self, LoginModalActionView::Nothing),
            }
        }
    }
}

/// A text without its last character; an empty text stays empty.
pub open spec fn without_last(s: Seq<char>) -> Seq<char> {
    if s.len() == 0 {
        s
    } else {
        s.drop_last()
    }
}

impl Default for LoginModalState {
    fn default() -> (r: Self)
        ensures
            r@ == LoginModalView::fresh(),
    {
        LoginModalState {
            server_url: DEFAULT_SERVER.to_string(),
            username: String::new(),
            password: String::new(),
            active_field: LoginField::ServerUrl,
            error_message: None,
            is_connecting: false,
        }
    }
}

impl LoginModalState {
    pub fn from_config(config: &NavidromeConfig) -> (r: Self)
        ensures
            r@ == LoginModalView::of_config(config@),
    {
        LoginModalState {
            server_url: config.server_url.clone(),
            username: config.username.clone(),
            password: config.password.clone(),
            active_field: LoginField::Submit,
            error_message: None,
            is_connecting: false,
        }
    }

    pub fn handle_key_event(&mut self, key: KeyEvent) -> (r: LoginModalAction)
        ensures
            (final(self)@, r@) == old(self)@.key(key.code),
    {
        if self.is_connecting {
            return LoginModalAction::Nothing;
        }
        match key.code {
            KeyCode::Tab | KeyCode::Down => {
                self.active_field = self.active_field.next();
            },
            KeyCode::BackTab | KeyCode::Up => {
                self.active_field = self.active_field.prev();
            },
            KeyCode::Enter => {
                return self.submit();
            },
            KeyCode::Char(c) => {
                match self.active_field {
                    LoginField::ServerUrl => self.server_url.push(c),
                    LoginField::Username => self.username.push(c),
                    LoginField::Password => self.password.push(c),
                    LoginField::Submit => {
                        return self.submit();
                    },
                }
            },
            KeyCode::Backspace => {
                match self.active_field {
                    LoginField::ServerUrl => {
                        let _ = self.server_url.pop();
                    },
                    LoginField::Username => {
                        let _ = self.username.pop();
                    },
                    LoginField::Password => {
                        let _ = self.password.pop();
                    },
                    LoginField::Submit => {},
                }
            },
            KeyCode::Esc => {
                self.error_message = None;
            },
            _ => {},
        }
        LoginModalAction::Nothing
    }

    /// Sends the form, or says which field is missing.
    pub fn submit(&mut self) -> (r: LoginModalAction)
        ensures
            (final(self)@, r@) == old(self)@.submitted(),
    {
        if trim(self.server_url.as_str()).as_str().is_empty() {
            self.error_message = Some("Server IP / URL cannot be empty".to_string());
            self.active_field = LoginField::ServerUrl;
            return LoginModalAction::Nothing;
        }
        if trim(self.username.as_str()).as_str().is_empty() {
            self.error_message = Some("Username cannot be empty".to_string());
            self.active_field = LoginField::Username;
            return LoginModalAction::Nothing;
        }
        LoginModalAction::Submit(
            NavidromeConfig::new(
                self.server_url.clone(),
                self.username.clone(),
                self.password.clone(),
            ),
        )
    }
}

/// What is sent always names a user, without white space around it, and a server
/// with more to its address than white space.
pub proof fn law_only_complete_forms_are_sent(s: LoginModalView, code: KeyCode)
    ensures
        s.key(code).1 matches LoginModalActionView::Submit(c) ==> {
            &&& c == config_of(s.server_url, s.username, s.password)
            &&& c.username.len() > 0
            &&& trimmed(s.server_url).len() > 0
            &&& !s.is_connecting
            &&& s.key(code).0 == s
        },
{
}

/// A typed character can be taken back.
pub proof fn law_erasing_undoes_typing(s: LoginModalView, c: char)
    requires
        !s.is_connecting,
        s.active_field != LoginField::Submit,
    ensures
        s.key(KeyCode::Char(c)).0.key(KeyCode::Backspace).0 == s,
{
    assert(s.server_url.push(c).drop_last() =~= s.server_url);
    assert(s.username.push(c).drop_last() =~= s.username);
    assert(s.password.push(c).drop_last() =~= s.password);
}

// ---------------------------------------------------------------------------
// The form on the screen
// ---------------------------------------------------------------------------

/// How large the form is: 60 columns and 18 rows, or what the screen leaves.
pub open spec fn form_size(area: Rect) -> (int, int) {
    (least(60, minus(area.width as int, 4)), least(18, minus(area.height as int, 2)))
}

/// The screen divided into what is above the form, the form's rows, and the rest.
pub open spec fn form_rows(area: Rect) -> Seq<Constraint> {
    let h = form_size(area).1;
    seq![
        Constraint::Length((minus(area.height as int, h) / 2) as u16),
        Constraint::Length(h as u16),
        Constraint::Min(0),
    ]
}

/// The form's rows divided into what is left of the form, the form, and the rest.
pub open spec fn form_columns(area: Rect) -> Seq<Constraint> {
    let w = form_size(area).0;
    seq![
        Constraint::Length((minus(area.width as int, w) / 2) as u16),
        Constraint::Length(w as u16),
        Constraint::Min(0),
    ]
}

/// The three fields, the button and the error.
pub open spec fn form_fields() -> Seq<Constraint> {
    seq![
        Constraint::Length(3),
        Constraint::Length(3),
        Constraint::Length(3),
        Constraint::Length(3),
        Constraint::Min(1),
    ]
}

/// Where the parts of the form stand.
pub struct LoginLayout {
    pub rows: Vec<Rect>,
    pub columns: Vec<Rect>,
    pub fields: Vec<Rect>,
}

pub struct LoginLayoutView {
    pub rows: Seq<Rect>,
    pub columns: Seq<Rect>,
    pub fields: Seq<Rect>,
}

impl View for LoginLayout {
    type V = LoginLayoutView;

    open spec fn view(&self) -> LoginLayoutView {
        LoginLayoutView { rows: self.rows@, columns: self.columns@, fields: self.fields@ }
    }
}

impl LoginLayoutView {
    /// The form.
    pub open spec fn popup(self) -> Rect {
        self.columns[1]
    }

    /// The parts were made by dividing the screen, the form's rows, and the inside of
    /// the form.
    pub open spec fn is_of(self, area: Rect) -> bool {
        &&& is_split(self.rows, area, Direction::Vertical, 0, 0, form_rows(area))
        &&& is_split(self.columns, self.rows[1], Direction::Horizontal, 0, 0, form_columns(area))
        &&& is_split(
            self.fields,
            self.popup().inside_border(),
            Direction::Vertical,
            1,
            0,
            form_fields(),
        )
    }
}

/// Divides the screen for the form.
pub fn lay_out_login(area: Rect) -> (r: LoginLayout)
    ensures
        r@.is_of(area),
        r@.columns.len() == 3,
        r@.fields.len() == 5,
{
    let w0: u16 = less(area.width, 4);
    let h0: u16 = less(area.height, 2);
    let w: u16 = if 60 < w0 {
        60
    } else {
        w0
    };
    let h: u16 = if 18 < h0 {
        18
    } else {
        h0
    };
    let row_plan = [
        Constraint::Length(less(area.height, h) / 2),
        Constraint::Length(h),
        Constraint::Min(0),
    ];
    assert(row_plan@ =~= form_rows(area));
    let rows = split(area, Direction::Vertical, 0, 0, &row_plan);
    let column_plan = [
        Constraint::Length(less(area.width, w) / 2),
        Constraint::Length(w),
        Constraint::Min(0),
    ];
    assert(column_plan@ =~= form_columns(area));
    let columns = split(rows[1], Direction::Horizontal, 0, 0, &column_plan);
    let field_plan = [
        Constraint::Length(3),
        Constraint::Length(3),
        Constraint::Length(3),
        Constraint::Length(3),
        Constraint::Min(1),
    ];
    assert(field_plan@ =~= form_fields());
    let fields = split(columns[1].framed(), Direction::Vertical, 1, 0, &field_plan);
    LoginLayout { rows, columns, fields }
}

/// On a screen of 64 columns and 20 rows or more, the form is 60 columns wide and 18
/// rows high, stands in the middle, and its fields are three rows high each.
pub proof fn law_form_stands_in_the_middle(l: LoginLayoutView, area: Rect, i: int)
    requires
        area.fits(),
        area.width >= 64,
        area.height >= 20,
        l.is_of(area),
        0 <= i < 4,
    ensures
        l.popup() == (Rect {
            x: (area.x + (area.width - 60) / 2) as u16,
            y: (area.y + (area.height - 18) / 2) as u16,
            width: 60,
            height: 18,
        }),
        l.fields[i] == (Rect {
            x: (l.popup().x + 2) as u16,
            y: (l.popup().y + 2 + 3 * i) as u16,
            width: 56,
            height: 3,
        }),
{
    reveal_with_fuel(demand, 6);
    let rows = form_rows(area);
    assert(rows[2] is Min);
    assert(rows.drop_last() =~= seq![rows[0], rows[1]]);
    assert(rows.drop_last().drop_last() =~= seq![rows[0]]);
    assert(area.without_margin(0, 0) == area);
    assert(can_be_met(rows, area.height as int, 0));
    assert(is_met(rows[1], extent(l.rows[1], Direction::Vertical), area.height as int));
    assert(is_met(rows[0], extent(l.rows[0], Direction::Vertical), area.height as int));
    assert(start(l.rows[1], Direction::Vertical) == area.y + (area.height - 18) / 2);
    let strip = l.rows[1];
    assert(strip.within(area));
    let columns = form_columns(area);
    assert(columns.drop_last() =~= seq![columns[0], columns[1]]);
    assert(columns.drop_last().drop_last() =~= seq![columns[0]]);
    assert(strip.without_margin(0, 0) == strip);
    assert(can_be_met(columns, strip.width as int, 0));
    assert(is_met(columns[1], extent(l.columns[1], Direction::Horizontal), strip.width as int));
    assert(is_met(columns[0], extent(l.columns[0], Direction::Horizontal), strip.width as int));
    assert(start(l.columns[1], Direction::Horizontal) == area.x + (area.width - 60) / 2);
    let popup = l.popup();
    let inside = popup.inside_border();
    let inner = inside.without_margin(1, 1);
    let fields = form_fields();
    assert(fields.drop_last() =~= seq![fields[0], fields[1], fields[2], fields[3]]);
    assert(fields.drop_last().drop_last() =~= seq![fields[0], fields[1], fields[2]]);
    assert(fields.drop_last().drop_last().drop_last() =~= seq![fields[0], fields[1]]);
    assert(fields.drop_last().drop_last().drop_last().drop_last() =~= seq![fields[0]]);
    assert(inner.height == 14);
    assert(can_be_met(fields, inner.height as int, 0));
    assert(is_met(fields[0], extent(l.fields[0], Direction::Vertical), 14));
    assert(is_met(fields[1], extent(l.fields[1], Direction::Vertical), 14));
    assert(is_met(fields[2], extent(l.fields[2], Direction::Vertical), 14));
    assert(is_met(fields[3], extent(l.fields[3], Direction::Vertical), 14));
    assert(start(l.fields[0], Direction::Vertical) == inner.y);
    assert(start(l.fields[1], Direction::Vertical) == inner.y + 3);
    assert(start(l.fields[2], Direction::Vertical) == inner.y + 6);
    assert(start(l.fields[3], Direction::Vertical) == inner.y + 9);
    assert(l.fields[i].within(inner));
}

/// How the border of a field looks.
pub open spec fn border_style(theme: Theme, active: bool) -> Style {
    if active {
        Style::Bold(theme.accent)
    } else {
        Style::Fg(theme.text_muted)
    }
}

/// A field of the form.
pub open spec fn field_view(
    s: LoginModalView,
    theme: Theme,
    field: LoginField,
    rect: Rect,
    title: Seq<char>,
    text: Seq<char>,
) -> DrawView {
    DrawView::Field {
        rect,
        title,
        border: border_style(theme, s.active_field == field),
        text,
        style: Style::Fg(theme.text),
    }
}

/// As many stars as a text has bytes.
pub open spec fn masked(s: Seq<char>) -> Seq<char> {
    Seq::new(encode_utf8(s).len(), |i: int| '*')
}

/// The button.
pub open spec fn button_view(s: LoginModalView, theme: Theme, rect: Rect) -> DrawView {
    DrawView::Text {
        rect,
        align: Align::Center,
        style: if s.active_field == LoginField::Submit {
            Style::On { fg: theme.background, bg: theme.accent, bold: true }
        } else {
            Style::On { fg: theme.text, bg: theme.text_muted, bold: false }
        },
        lines: seq![
            line_of(
                if s.is_connecting {
                    "  Connecting...  "@
                } else {
                    "  [ Connect & Login ]  "@
                },
                Style::Plain,
            ),
        ],
    }
}

/// What went wrong, where something did.
pub open spec fn error_view(s: LoginModalView, rect: Rect) -> Seq<DrawView> {
    match s.error_message {
        Some(e) => seq![
            DrawView::Text {
                rect,
                align: Align::Center,
                style: Style::Error,
                lines: seq![line_of(" Error: "@ + e, Style::Plain)],
            },
        ],
        None => Seq::empty(),
    }
}

/// The form as it is drawn. The password is masked.
pub open spec fn form_view(s: LoginModalView, theme: Theme, l: LoginLayoutView) -> Seq<DrawView> {
    seq![
        DrawView::Clear { rect: l.popup() },
        DrawView::Panel {
            rect: l.popup(),
            title: " Navidrome Server Login "@,
            border: Style::Fg(theme.accent),
            background: theme.background,
        },
        field_view(
            s,
            theme,
            LoginField::ServerUrl,
            l.fields[0],
            " Server IP / URL (e.g. http://localhost:4533) "@,
            s.server_url,
        ),
        field_view(s, theme, LoginField::Username, l.fields[1], " Username "@, s.username),
        field_view(
            s,
            theme,
            LoginField::Password,
            l.fields[2],
            " Password "@,
            masked(s.password),
        ),
        button_view(s, theme, l.fields[3]),
    ] + error_view(s, l.fields[4])
}

fn mask(s: &str) -> (r: String)
    ensures
        r@ == masked(s@),
{
    let n: usize = s.as_bytes().len();
    let mut out = String::new();
    let mut i: usize = 0;
    while i < n
        invariant
            i <= n,
            out@ == Seq::new(i as nat, |k: int| '*'),
        decreases n - i,
    {
        out.push('*');
        i += 1;
        assert(out@ =~= Seq::new(i as nat, |k: int| '*'));
    }
    assert(out@ =~= masked(s@));
    out
}

fn make_field(
    state: &LoginModalState,
    theme: Theme,
    field: LoginField,
    rect: Rect,
    title: &str,
    text: String,
) -> (r: Draw)
    ensures
        r@ == field_view(state@, theme, field, rect, title@, text@),
{
    let border = if state.active_field == field {
        Style::Bold(theme.accent)
    } else {
        Style::Fg(theme.text_muted)
    };
    Draw::Field { rect, title: title.to_string(), border, text, style: Style::Fg(theme.text) }
}

fn one_line(rect: Rect, style: Style, text: String) -> (r: Draw)
    ensures
        r@ == (DrawView::Text {
            rect,
            align: Align::Center,
            style,
            lines: seq![line_of(text@, Style::Plain)],
        }),
{
    let mut lines: Vec<Line> = Vec::new();
    lines.push(line1(span(text, Style::Plain)));
    assert(views(lines@) =~= seq![line_of(text@, Style::Plain)]);
    Draw::Text { rect, align: Align::Center, style, lines }
}

fn make_button(state: &LoginModalState, theme: Theme, rect: Rect) -> (r: Draw)
    ensures
        r@ == button_view(state@, theme, rect),
{
    let style = if state.active_field == LoginField::Submit {
        Style::On { fg: theme.background, bg: theme.accent, bold: true }
    } else {
        Style::On { fg: theme.text, bg: theme.text_muted, bold: false }
    };
    let label = if state.is_connecting {
        "  Connecting...  "
    } else {
        "  [ Connect & Login ]  "
    };
    one_line(rect, style, label.to_string())
}

/// The form, on a screen that has been divided for it.
pub fn render_login_modal(state: &LoginModalState, theme: Theme, layout: &LoginLayout) -> (r: Vec<
    Draw,
>)
    requires
        layout@.columns.len() == 3,
        layout@.fields.len() == 5,
    ensures
        views(r@) == form_view(state@, theme, layout@),
{
    let popup = layout.columns[1];
    let mut out = nothing();
    put(&mut out, Draw::Clear { rect: popup });
    put(
        &mut out,
        Draw::Panel {
            rect: popup,
            title: " Navidrome Server Login ".to_string(),
            border: Style::Fg(theme.accent),
            background: theme.background,
        },
    );
    put(
        &mut out,
        make_field(
            state,
            theme,
            LoginField::ServerUrl,
            layout.fields[0],
            " Server IP / URL (e.g. http://localhost:4533) ",
            state.server_url.clone(),
        ),
    );
    put(
        &mut out,
        make_field(
            state,
            theme,
            LoginField::Username,
            layout.fields[1],
            " Username ",
            state.username.clone(),
        ),
    );
    put(
        &mut out,
        make_field(
            state,
            theme,
            LoginField::Password,
            layout.fields[2],
            " Password ",
            mask(state.password.as_str()),
        ),
    );
    put(&mut out, make_button(state, theme, layout.fields[3]));
    if let Some(e) = &state.error_message {
        put(
            &mut out,
            one_line(layout.fields[4], Style::Error, join2(" Error: ", e.as_str())),
        );
    }
    assert(views(out@) =~= form_view(state@, theme, layout@));
    out
}

/// A password is never shown: what is drawn in its place tells no more than how many
/// bytes it has.
pub proof fn law_password_is_never_shown(
    s: LoginModalView,
    t: LoginModalView,
    theme: Theme,
    l: LoginLayoutView,
)
    requires
        t == (LoginModalView { password: t.password, ..s }),
        encode_utf8(s.password).len() == encode_utf8(t.password).len(),
    ensures
        form_view(s, theme, l) == form_view(t, theme, l),
{
    assert(masked(s.password) =~= masked(t.password));
}

/// In the form, a character goes to the end of the active field and nowhere else;
/// the arrows and tabs go from the server to the user, the password and the button,
/// and around; Esc takes the error away; nothing happens while a connection is made.
pub proof fn law_keys_in_the_form(m: LoginModalView, code: KeyCode, c: char)
    ensures
        m.is_connecting ==> m.key(code) == (m, LoginModalActionView::Nothing),
        !m.is_connecting && m.active_field == LoginField::ServerUrl ==> m.key(KeyCode::Char(c)) == (
            LoginModalView { server_url: m.server_url.push(c), ..m },
            LoginModalActionView::Nothing,
        ),
        !m.is_connecting && m.active_field == LoginField::Username ==> m.key(KeyCode::Char(c)) == (
            LoginModalView { username: m.username.push(c), ..m },
            LoginModalActionView::Nothing,
        ),
        !m.is_connecting && m.active_field == LoginField::Password ==> m.key(KeyCode::Char(c)) == (
            LoginModalView { password: m.password.push(c), ..m },
            LoginModalActionView::Nothing,
        ),
        !m.is_connecting && m.active_field == LoginField::Submit ==> m.key(KeyCode::Char(c)) == m.key(
            KeyCode::Enter,
        ),
        !m.is_connecting && (code == KeyCode::Tab || code == KeyCode::Down) ==> m.key(code) == (
            LoginModalView {
                active_field: match m.active_field {
                    LoginField::ServerUrl => LoginField::Username,
                    LoginField::Username => LoginField::Password,
                    LoginField::Password => LoginField::Submit,
                    LoginField::Submit => LoginField::ServerUrl,
                },
                ..m
            },
            LoginModalActionView::Nothing,
        ),
        !m.is_connecting && (code == KeyCode::BackTab || code == KeyCode::Up) ==> m.key(code) == (
            LoginModalView {
                active_field: match m.active_field {
                    LoginField::ServerUrl => LoginField::Submit,
                    LoginField::Username => LoginField::ServerUrl,
                    LoginField::Password => LoginField::Username,
                    LoginField::Submit => LoginField::Password,
                },
                ..m
            },
            LoginModalActionView::Nothing,
        ),
        !m.is_connecting && code == KeyCode::Esc ==> m.key(code) == (
            LoginModalView { error_message: None, ..m },
            LoginModalActionView::Nothing,
        ),
{
}

/// Enter sends a form that has a server and a user; else it says which is missing,
/// the server first, and goes there.
pub proof fn law_sending_the_form(m: LoginModalView)
    requires
        !m.is_connecting,
    ensures
        crate::text::is_blank(m.server_url) ==> m.key(KeyCode::Enter) == (
            LoginModalView {
                error_message: Some("Server IP / URL cannot be empty"@),
                active_field: LoginField::ServerUrl,
                ..m
            },
            LoginModalActionView::Nothing,
        ),
        !crate::text::is_blank(m.server_url) && crate::text::is_blank(m.username) ==> m.key(
            KeyCode::Enter,
        ) == (
            LoginModalView {
                error_message: Some("Username cannot be empty"@),
                active_field: LoginField::Username,
                ..m
            },
            LoginModalActionView::Nothing,
        ),
        !crate::text::is_blank(m.server_url) && !crate::text::is_blank(m.username) ==> m.key(
            KeyCode::Enter,
        ) == (
            m,
            LoginModalActionView::Submit(config_of(m.server_url, m.username, m.password)),
        ),
{
    crate::text::lemma_blank_is_trimmed(m.server_url);
    crate::text::lemma_blank_is_trimmed(m.username);
}

/// The form shows what was typed, but of the password only stars, one for every byte;
/// it marks the active field, and says what went wrong.
pub proof fn law_form_shows_what_was_typed(m: LoginModalView, theme: Theme, l: LoginLayoutView)
    ensures
        ({
            let d = form_view(m, theme, l);
            let bold = Style::Bold(theme.accent);
            &&& d[2]->Field_rect == l.fields[0] && d[2]->text == m.server_url
            &&& d[3]->Field_rect == l.fields[1] && d[3]->text == m.username
            &&& d[4]->Field_rect == l.fields[2] && d[4]->text.len() == encode_utf8(m.password).len()
            &&& forall|i: int| 0 <= i < d[4]->text.len() ==> #[trigger] d[4]->text[i] == '*'
            &&& d[2]->Field_border == bold <==> m.active_field == LoginField::ServerUrl
            &&& d[3]->Field_border == bold <==> m.active_field == LoginField::Username
            &&& d[4]->Field_border == bold <==> m.active_field == LoginField::Password
            &&& d[5]->Text_rect == l.fields[3]
            &&& d[5]->lines[0][0].text == (if m.is_connecting {
                "  Connecting...  "@
            } else {
                "  [ Connect & Login ]  "@
            })
            &&& m.error_message is None ==> d.len() == 6
            &&& m.error_message matches Some(e) ==> d.len() == 7 && d[6]->Text_rect == l.fields[4]
                && d[6]->lines[0][0].text == " Error: "@ + e
        }),
{
}

} // verus!
