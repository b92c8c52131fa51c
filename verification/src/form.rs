//! The request form of the graphical client as a state machine: what each
//! event does to the form, and what it asks the surrounding program to do.

use vstd::prelude::*;
use vstd::utf8::encode_utf8;
use crate::constants::APP_NAME;
use crate::file::FileOpenDialogError;
use crate::header::Field;
use crate::method::Method;
use crate::report::{OutcomeView, RequestOutcome};
use crate::request::{
    build_outcome, build_request, BuildError, BuiltRequest, BuiltRequestView, ClientConfig,
    RequestSpec, RequestSpecView,
};
use crate::url::{is_absolute_url, is_valid_url};

verus! {

/// Where the body of the request comes from.
#[derive(Clone, Copy, Debug, PartialEq, Eq, Structural)]
pub enum BodyType {
    /// The request has no body.
    Empty,
    /// The body is the content of the file that was picked.
    File,
    /// The body is the text of the editor.
    Text,
}

/// An edit of a list of name and value rows.
#[derive(Debug)]
pub enum TupleEvent {
    /// The name of the row at a place was typed.
    KeyChanged(usize, String),
    /// The value of the row at a place was typed.
    ValueChanged(usize, String),
    /// The row at a place was taken out.
    Remove(usize),
    /// An empty row was added at the end.
    Add,
}

/// An event of the form.
#[derive(Debug)]
pub enum Message {
    /// A method was picked.
    MethodChanged(Method),
    /// The address was typed.
    UrlInputChanged(String),
    /// The header rows were edited.
    HeaderInputChanged(TupleEvent),
    /// The query rows were edited.
    QueryInputChanged(TupleEvent),
    /// The request is to be sent; with it comes the text of the body editor.
    SendRequest(String),
    /// A response, or the reason why there is none, has come in.
    ResponseBodyChanged(String),
    /// Something was done in the response view; the flag says whether it
    /// would change the text.
    ResponseBodyText(bool),
    /// A source for the body was picked.
    BodyTypeChanged(BodyType),
    /// Something was done in the body editor.
    BodyContentChanged,
    /// A file is to be picked for the body.
    BodyContentOpenFile,
    /// The file dialog has ended: with the path and the content of a file,
    /// or without.
    BodyContentFileOpened(Result<(String, String), FileOpenDialogError>),
}

/// What the surrounding program is asked to do after an event.
#[derive(Debug)]
pub enum Command {
    /// Nothing.
    Idle,
    /// Send this request and hand its outcome back as a response.
    Send(BuiltRequest),
    /// Show the file dialog and hand back what it gave.
    OpenFile,
    /// Carry out the action in the body editor.
    EditBody,
    /// Carry out the action in the response view.
    MoveInResponse,
}

/// The form.
#[derive(Debug)]
pub struct FormState {
    /// The method that is picked.
    pub method: Method,
    /// The address as typed.
    pub url_input: String,
    /// Whether the address was an absolute URL when it was last looked at.
    pub url_input_valid: bool,
    /// The header rows.
    pub header_input: Vec<(String, String)>,
    /// The query rows.
    pub query_input: Vec<(String, String)>,
    /// What the response view shows.
    pub response_body: String,
    /// Where the body comes from.
    pub body_type: BodyType,
    /// The path of the file that was picked.
    pub body_file_path: Option<String>,
    /// The content of the file that was picked.
    pub body_file_content: Option<String>,
}

/// The form as plain text and values.
pub struct FormView {
    pub method: Method,
    pub url_input: Seq<char>,
    pub url_input_valid: bool,
    pub header_input: Seq<Field>,
    pub query_input: Seq<Field>,
    pub response_body: Seq<char>,
    pub body_type: BodyType,
    pub body_file_path: Option<Seq<char>>,
    pub body_file_content: Option<Seq<char>>,
}

impl View for FormState {
    type V = FormView;

    open spec fn view(&self) -> FormView {
        FormView {
            method: self.method,
            url_input: self.url_input@,
            url_input_valid: self.url_input_valid,
            header_input: self.header_input.deep_view(),
            query_input: self.query_input.deep_view(),
            response_body: self.response_body@,
            body_type: self.body_type,
            body_file_path: self.body_file_path.deep_view(),
            body_file_content: self.body_file_content.deep_view(),
        }
    }
}

/// What the response view shows before any request was sent.
pub const RESPONSE_PLACEHOLDER: &'static str = "Response body will go here...";

/// The form as it is first shown: `GET`, no address, one empty header row,
/// one empty query row, the body taken from the editor.
pub open spec fn initial_form() -> FormView {
    FormView {
        method: Method::Get,
        url_input: Seq::<char>::empty(),
        url_input_valid: false,
        header_input: seq![(Seq::<char>::empty(), Seq::<char>::empty())],
        query_input: seq![(Seq::<char>::empty(), Seq::<char>::empty())],
        response_body: RESPONSE_PLACEHOLDER@,
        body_type: BodyType::Text,
        body_file_path: None,
        body_file_content: None,
    }
}

/// Whether an edit can be made to a list of rows: a row that is taken out
/// must be there.
pub open spec fn event_fits(rows: Seq<Field>, event: TupleEvent) -> bool {
    event matches TupleEvent::Remove(index) ==> index < rows.len()
}

/// A list of rows after an edit. Typing into a row that is not there
/// changes nothing.
pub open spec fn rows_after(rows: Seq<Field>, event: TupleEvent) -> Seq<Field> {
    match event {
        TupleEvent::KeyChanged(index, key) => if index < rows.len() {
            rows.update(index as int, (key@, rows[index as int].1))
        } else {
            rows
        },
        TupleEvent::ValueChanged(index, value) => if index < rows.len() {
            rows.update(index as int, (rows[index as int].0, value@))
        } else {
            rows
        },
        TupleEvent::Remove(index) => rows.remove(index as int),
        TupleEvent::Add => rows.push((Seq::<char>::empty(), Seq::<char>::empty())),
    }
}

/// Whether an edit can be made to a list of rows.
pub fn fits_rows(rows: &Vec<(String, String)>, event: &TupleEvent) -> (res: bool)
    ensures
        res == event_fits(rows.deep_view(), *event),
{
    match event {
        TupleEvent::Remove(index) => *index < rows.len(),
        _ => true,
    }
}

/// Makes an edit to a list of rows.
pub fn apply_tuple_event(rows: &mut Vec<(String, String)>, event: TupleEvent)
    requires
        event_fits(old(rows).deep_view(), event),
    ensures
        final(rows).deep_view() == rows_after(old(rows).deep_view(), event),
{
    let ghost before = rows.deep_view();
    match event {
        TupleEvent::KeyChanged(index, key) => {
            if index < rows.len() {
                let value = rows[index].1.clone();
                rows.set(index, (key, value));
                assert(rows.deep_view() =~= rows_after(before, event));
            }
        },
        TupleEvent::ValueChanged(index, value) => {
            if index < rows.len() {
                let key = rows[index].0.clone();
                rows.set(index, (key, value));
                assert(rows.deep_view() =~= rows_after(before, event));
            }
        },
        TupleEvent::Remove(index) => {
            let _ = rows.remove(index);
            assert(rows.deep_view() =~= rows_after(before, event));
        },
        TupleEvent::Add => {
            rows.push((String::new(), String::new()));
            assert(rows.deep_view() =~= rows_after(before, event));
        },
    }
}

/// The test "this row has a name".
pub open spec fn is_filled() -> spec_fn(Field) -> bool {
    |row: Field| row.0.len() > 0
}

/// The rows that count when a request is made: those with a name.
pub open spec fn filled(rows: Seq<Field>) -> Seq<Field> {
    rows.filter(is_filled())
}

/// The rows that count when a request is made.
pub fn filled_rows(rows: &Vec<(String, String)>) -> (res: Vec<(String, String)>)
    ensures
        res.deep_view() == filled(rows.deep_view()),
{
    let ghost view = rows.deep_view();
    let mut out: Vec<(String, String)> = Vec::new();
    let mut i: usize = 0;
    proof {
        reveal(Seq::filter);
        assert(view.take(0).filter(is_filled()) =~= Seq::<Field>::empty());
        assert(out.deep_view() =~= Seq::<Field>::empty());
    }
    while i < rows.len()
        invariant
            i <= rows.len(),
            view == rows.deep_view(),
            out.deep_view() == filled(view.take(i as int)),
        decreases rows.len() - i,
    {
        let row = &rows[i];
        let ghost before = out.deep_view();
        proof {
            assert(view[i as int] == (row.0@, row.1@));
            assert(view.take(i + 1) =~= view.take(i as int).push(view[i as int]));
            view.take(i as int).lemma_filter_push(view[i as int], is_filled());
        }
        if !row.0.as_str().is_empty() {
            out.push((row.0.clone(), row.1.clone()));
            assert(out.deep_view() =~= before.push(view[i as int]));
        }
        i += 1;
    }
    assert(view.take(rows.len() as int) =~= view);
    out
}

/// The body that the form sends: nothing, the text of the editor, or the
/// content of the picked file, where one was picked.
pub open spec fn form_body(form: FormView, editor: Seq<char>) -> Seq<u8> {
    match form.body_type {
        BodyType::Empty => Seq::<u8>::empty(),
        BodyType::Text => encode_utf8(editor),
        BodyType::File => match form.body_file_content {
            Some(content) => encode_utf8(content),
            None => Seq::<u8>::empty(),
        },
    }
}

/// The request that the form describes, given the text of the body editor.
pub open spec fn form_request(form: FormView, editor: Seq<char>) -> RequestSpecView {
    RequestSpecView {
        method: form.method,
        url: form.url_input,
        query: filled(form.query_input),
        headers: filled(form.header_input),
        body: form_body(form, editor),
    }
}

/// Whether the form can take an event.
pub open spec fn message_fits(form: FormView, message: Message) -> bool {
    match message {
        Message::HeaderInputChanged(event) => event_fits(form.header_input, event),
        Message::QueryInputChanged(event) => event_fits(form.query_input, event),
        _ => true,
    }
}

/// The form after an event.
pub open spec fn form_after(defaults: Seq<Field>, form: FormView, message: Message) -> FormView {
    match message {
        Message::MethodChanged(method) => FormView { method, ..form },
        Message::UrlInputChanged(url) => FormView {
            url_input: url@,
            url_input_valid: is_absolute_url(url@),
            ..form
        },
        Message::HeaderInputChanged(event) => FormView {
            header_input: rows_after(form.header_input, event),
            ..form
        },
        Message::QueryInputChanged(event) => FormView {
            query_input: rows_after(form.query_input, event),
            ..form
        },
        Message::SendRequest(editor) => {
            let checked = FormView { url_input_valid: is_absolute_url(form.url_input), ..form };
            match build_outcome(defaults, form_request(form, editor@)) {
                Ok(_) => checked,
                Err(e) => FormView { response_body: e.text(), ..checked },
            }
        },
        Message::ResponseBodyChanged(text) => FormView { response_body: text@, ..form },
        Message::ResponseBodyText(_) => form,
        Message::BodyTypeChanged(body_type) => FormView { body_type, ..form },
        Message::BodyContentChanged => form,
        Message::BodyContentOpenFile => form,
        Message::BodyContentFileOpened(result) => match result {
            Ok(file) => FormView {
                body_file_path: Some(file.0@),
                body_file_content: Some(file.1@),
                ..form
            },
            Err(_) => form,
        },
    }
}

/// A command as plain text and values.
pub enum CommandView {
    Idle,
    Send(BuiltRequestView),
    OpenFile,
    EditBody,
    MoveInResponse,
}

impl View for Command {
    type V = CommandView;

    open spec fn view(&self) -> CommandView {
        match self {
            Command::Idle => CommandView::Idle,
            Command::Send(request) => CommandView::Send(request@),
            Command::OpenFile => CommandView::OpenFile,
            Command::EditBody => CommandView::EditBody,
            Command::MoveInResponse => CommandView::MoveInResponse,
        }
    }
}

/// What an event asks for. A request is sent only where it can be built;
/// the response view is read-only, so an action that would change its text
/// is dropped.
pub open spec fn command_for(
    defaults: Seq<Field>,
    form: FormView,
    message: Message,
) -> CommandView {
    match message {
        Message::SendRequest(editor) => match build_outcome(
            defaults,
            form_request(form, editor@),
        ) {
            Ok(request) => CommandView::Send(request),
            Err(_) => CommandView::Idle,
        },
        Message::ResponseBodyText(edits) => if edits {
            CommandView::Idle
        } else {
            CommandView::MoveInResponse
        },
        Message::BodyContentChanged => CommandView::EditBody,
        Message::BodyContentOpenFile => CommandView::OpenFile,
        _ => CommandView::Idle,
    }
}

/// What the response view shows for an outcome: the body of a response, or
/// the reason of a failure.
pub open spec fn shown_text(outcome: OutcomeView) -> Seq<char> {
    match outcome {
        OutcomeView::Success(response) => response.body,
        OutcomeView::Failure(error) => error,
    }
}

/// What the response view shows for an outcome.
pub fn shown_for(outcome: RequestOutcome) -> (res: String)
    ensures
        res@ == shown_text(outcome@),
{
    match outcome {
        RequestOutcome::Success(response) => response.body,
        RequestOutcome::Failure(error) => error,
    }
}

impl FormState {
    /// The form as it is first shown.
    pub fn new() -> (res: FormState)
        ensures
            res@ == initial_form(),
    {
        let mut header_input: Vec<(String, String)> = Vec::new();
        header_input.push((String::new(), String::new()));
        let mut query_input: Vec<(String, String)> = Vec::new();
        query_input.push((String::new(), String::new()));
        let res = FormState {
            method: Method::Get,
            url_input: String::new(),
            url_input_valid: false,
            header_input,
            query_input,
            response_body: String::from_str(RESPONSE_PLACEHOLDER),
            body_type: BodyType::Text,
            body_file_path: None,
            body_file_content: None,
        };
        assert(res@.header_input =~= initial_form().header_input);
        assert(res@.query_input =~= initial_form().query_input);
        res
    }

    /// The title of the window.
    pub fn title(&self) -> (res: String)
        ensures
            res@ == APP_NAME@,
    {
        String::from_str(APP_NAME)
    }

    /// Whether the form can take an event.
    pub fn accepts(&self, message: &Message) -> (res: bool)
        ensures
            res == message_fits(self@, *message),
    {
        match message {
            Message::HeaderInputChanged(event) => fits_rows(&self.header_input, event),
            Message::QueryInputChanged(event) => fits_rows(&self.query_input, event),
            _ => true,
        }
    }

    /// The description of the request that the form stands for.
    pub fn request(&self, editor: &str) -> (res: RequestSpec)
        ensures
            res@ == form_request(self@, editor@),
    {
        let body = match self.body_type {
            BodyType::Empty => Vec::new(),
            BodyType::Text => editor.as_bytes_vec(),
            BodyType::File => match &self.body_file_content {
                Some(content) => content.as_str().as_bytes_vec(),
                None => Vec::new(),
            },
        };
        RequestSpec {
            method: self.method,
            url: self.url_input.clone(),
            query: filled_rows(&self.query_input),
            headers: filled_rows(&self.header_input),
            body,
        }
    }

    /// Takes an event: changes the form, and says what is to be done.
    pub fn update(&mut self, config: &ClientConfig, message: Message) -> (res: Command)
        requires
            message_fits(old(self)@, message),
        ensures
            final(self)@ == form_after(config@, old(self)@, message),
            res@ == command_for(config@, old(self)@, message),
    {
        match message {
            Message::MethodChanged(method) => {
                self.method = method;
                Command::Idle
            },
            Message::UrlInputChanged(url) => {
                self.url_input_valid = is_valid_url(url.as_str());
                self.url_input = url;
                Command::Idle
            },
            Message::HeaderInputChanged(event) => {
                apply_tuple_event(&mut self.header_input, event);
                Command::Idle
            },
            Message::QueryInputChanged(event) => {
                apply_tuple_event(&mut self.query_input, event);
                Command::Idle
            },
            Message::SendRequest(editor) => {
                let spec = self.request(editor.as_str());
                self.url_input_valid = is_valid_url(self.url_input.as_str());
                match build_request(config, &spec) {
                    Ok(request) => Command::Send(request),
                    Err(e) => {
                        self.response_body = String::from_str(e.message());
                        Command::Idle
                    },
                }
            },
            Message::ResponseBodyChanged(text) => {
                self.response_body = text;
                Command::Idle
            },
            Message::ResponseBodyText(edits) => {
                if edits {
                    Command::Idle
                } else {
                    Command::MoveInResponse
                }
            },
            Message::BodyTypeChanged(body_type) => {
                self.body_type = body_type;
                Command::Idle
            },
            Message::BodyContentChanged => Command::EditBody,
            Message::BodyContentOpenFile => Command::OpenFile,
            Message::BodyContentFileOpened(result) => {
                match result {
                    Ok(file) => {
                        self.body_file_path = Some(file.0);
                        self.body_file_content = Some(file.1);
                    },
                    Err(_) => {},
                }
                Command::Idle
            },
        }
    }

    /// The line that names the picked file.
    pub fn file_label(&self) -> (res: String)
        ensures
            res@ == "File: "@ + match self@.body_file_path {
                Some(path) => path,
                None => "No file selected"@,
            },
    {
        let mut out = String::from_str("File: ");
        match &self.body_file_path {
            Some(path) => out.append(path.as_str()),
            None => out.append("No file selected"),
        }
        out
    }
}

} // verus!
