//! What the app asks of the system: files, addresses, saved passwords, windows and the
//! keyboard.

use crate::text;
use vstd::prelude::*;
use vstd::utf8::*;

verus! {

/// The windows of the app, and whether it is waited for what the system tells.
#[derive(Clone, Debug, PartialEq, Eq)]
pub struct IosPlatform {
    /// The windows that were opened, by their numbers.
    pub windows: Vec<u64>,
    /// Whether someone waits for addresses.
    pub awaits_urls: bool,
    /// Whether someone waits for the end of the app.
    pub awaits_quit: bool,
}

/// The addresses that are handed on, if someone waits for them.
pub open spec fn handed_on(platform: IosPlatform, urls: Vec<String>) -> Option<Vec<String>> {
    if platform.awaits_urls {
        Some(urls)
    } else {
        None
    }
}

/// Whether someone is told that the app ends.
pub open spec fn tells_end(platform: IosPlatform) -> bool {
    platform.awaits_quit
}

/// The window that was opened first.
pub open spec fn first_window(windows: Seq<u64>) -> Option<u64> {
    if windows.len() > 0 {
        Some(windows[0])
    } else {
        None
    }
}

impl IosPlatform {
    /// The app without windows.
    pub fn new() -> (platform: Self)
        ensures
            platform.windows@.len() == 0,
            !platform.awaits_urls,
            !platform.awaits_quit,
    {
        IosPlatform { windows: Vec::new(), awaits_urls: false, awaits_quit: false }
    }

    /// Notes that someone waits for addresses.
    pub fn on_open_urls(&mut self)
        ensures
            final(self).awaits_urls,
            final(self).awaits_quit == old(self).awaits_quit,
            final(self).windows == old(self).windows,
    {
        self.awaits_urls = true;
    }

    /// Notes that someone waits for the end of the app.
    pub fn on_quit(&mut self)
        ensures
            final(self).awaits_quit,
            final(self).awaits_urls == old(self).awaits_urls,
            final(self).windows == old(self).windows,
    {
        self.awaits_quit = true;
    }

    /// The addresses to hand on, if someone waits for them.
    pub fn handle_open_urls(&self, urls: Vec<String>) -> (handed: Option<Vec<String>>)
        ensures
            handed == handed_on(*self, urls),
    {
        if self.awaits_urls {
            Some(urls)
        } else {
            None
        }
    }

    /// Whether someone is to be told that the app ends.
    pub fn will_terminate(&self) -> (tells: bool)
        ensures
            tells == tells_end(*self),
    {
        self.awaits_quit
    }

    /// Notes that a window is opened.
    pub fn open_window(&mut self, handle: u64)
        ensures
            final(self).windows@ == old(self).windows@.push(handle),
            final(self).awaits_urls == old(self).awaits_urls,
            final(self).awaits_quit == old(self).awaits_quit,
    {
        self.windows.push(handle);
    }

    /// The window that was opened first.
    pub fn active_window(&self) -> (handle: Option<u64>)
        ensures
            handle == first_window(self.windows@),
    {
        if self.windows.len() > 0 {
            Some(self.windows[0])
        } else {
            None
        }
    }
}

/// Whether windows are dark or light.
#[derive(Clone, Copy, Debug, PartialEq, Eq, Structural)]
pub enum WindowAppearance {
    Dark,
    Light,
}

/// How windows look in a style of the system.
pub open spec fn appearance_in(style: i64) -> WindowAppearance {
    if style == 2 {
        WindowAppearance::Dark
    } else {
        WindowAppearance::Light
    }
}

/// How windows look in a style of the system.
pub fn window_appearance(style: i64) -> (appearance: WindowAppearance)
    ensures
        appearance == appearance_in(style),
{
    match style {
        2 => WindowAppearance::Dark,
        _ => WindowAppearance::Light,
    }
}

/// Which of the windows is in front: the one that takes the keys, else the first one.
pub fn front_window(takes_keys: &[bool]) -> (index: Option<usize>)
    ensures
        match index {
            Some(index) => index < takes_keys@.len() && (if takes_keys@[index as int] {
                forall|i: int| 0 <= i < index ==> !takes_keys@[i]
            } else {
                index == 0 && forall|i: int| 0 <= i < takes_keys@.len() ==> !takes_keys@[i]
            }),
            None => takes_keys@.len() == 0,
        },
{
    let mut i: usize = 0;
    while i < takes_keys.len()
        invariant
            i <= takes_keys@.len(),
            forall|j: int| 0 <= j < i ==> !takes_keys@[j],
        decreases takes_keys@.len() - i,
    {
        if takes_keys[i] {
            return Some(i);
        }
        i = i + 1;
    }
    if takes_keys.len() > 0 {
        Some(0)
    } else {
        None
    }
}

// The file picker.

/// What a file picker is asked for.
#[derive(Clone, Copy, Debug, PartialEq, Eq, Structural)]
pub struct PathPromptOptions {
    pub files: bool,
    pub directories: bool,
    pub multiple: bool,
}

/// Why no file picker is shown.
#[derive(Clone, Copy, Debug, PartialEq, Eq, Structural)]
pub enum PathPromptError {
    Directories,
    NoFiles,
    AlreadyActive,
    NotCreated,
    NoPresenter,
}

/// What is told if no file picker is shown.
pub open spec fn prompt_error_text(error: PathPromptError) -> Seq<char> {
    match error {
        PathPromptError::Directories => "Directory selection is not supported on iOS."@,
        PathPromptError::NoFiles => "The iOS file picker only supports file selection."@,
        PathPromptError::AlreadyActive => "Another iOS file picker is already active."@,
        PathPromptError::NotCreated => "Failed to create the iOS document picker."@,
        PathPromptError::NoPresenter =>
            "No active iOS view controller was available to present the file picker."@,
    }
}

impl PathPromptError {
    /// What is told of it.
    pub fn message(self) -> (message: &'static str)
        ensures
            message@ == prompt_error_text(self),
    {
        match self {
            PathPromptError::Directories => "Directory selection is not supported on iOS.",
            PathPromptError::NoFiles => "The iOS file picker only supports file selection.",
            PathPromptError::AlreadyActive => "Another iOS file picker is already active.",
            PathPromptError::NotCreated => "Failed to create the iOS document picker.",
            PathPromptError::NoPresenter =>
                "No active iOS view controller was available to present the file picker.",
        }
    }
}

/// The file picker of the app: there is one at a time.
#[derive(Clone, Copy, Debug, PartialEq, Eq, Structural)]
pub struct PathPrompt {
    /// Whether someone waits for what is picked.
    pub active: bool,
    /// Whether the system holds on to the one who is told what is picked.
    pub has_delegate: bool,
}

/// What stands against a file picker, if anything does.
pub open spec fn prompt_refusal(prompt: PathPrompt, options: PathPromptOptions) -> Option<
    PathPromptError,
> {
    if options.directories {
        Some(PathPromptError::Directories)
    } else if !options.files {
        Some(PathPromptError::NoFiles)
    } else if prompt.active {
        Some(PathPromptError::AlreadyActive)
    } else {
        None
    }
}

/// What came of showing the file picker.
#[derive(Clone, Copy, Debug, PartialEq, Eq, Structural)]
pub enum PickerShown {
    Shown,
    NotCreated,
    NoPresenter,
}

/// What is to be done once it is known whether the file picker is shown.
#[derive(Clone, Copy, Debug, PartialEq, Eq, Structural)]
pub struct ShownOutcome {
    /// The error for the one who waits, if the picker could not be shown.
    pub error: Option<PathPromptError>,
    /// Whether the system is to let go of the one who would have been told what is picked.
    pub releases_delegate: bool,
}

/// The file picker once it begins to be shown.
pub open spec fn prompt_begun(prompt: PathPrompt) -> PathPrompt {
    PathPrompt { active: true, ..prompt }
}

/// The file picker once it has ended; whether someone is to be told what came of it, and whether
/// the system is to let go of the one who was told.
pub open spec fn prompt_ended(prompt: PathPrompt) -> (PathPrompt, (bool, bool)) {
    (PathPrompt { active: false, has_delegate: false }, (prompt.active, prompt.has_delegate))
}

/// The file picker once it is known whether it is shown, and what is to be done.
pub open spec fn after_showing(prompt: PathPrompt, shown: PickerShown) -> (
    PathPrompt,
    ShownOutcome,
) {
    let over = PathPrompt { active: false, has_delegate: false };
    match shown {
        PickerShown::Shown => (
            PathPrompt { has_delegate: true, ..prompt },
            ShownOutcome { error: None, releases_delegate: false },
        ),
        PickerShown::NotCreated => (
            over,
            ShownOutcome {
                error: if prompt.active {
                    Some(PathPromptError::NotCreated)
                } else {
                    None
                },
                releases_delegate: prompt.has_delegate,
            },
        ),
        PickerShown::NoPresenter => (
            over,
            ShownOutcome {
                error: if prompt.active {
                    Some(PathPromptError::NoPresenter)
                } else {
                    None
                },
                releases_delegate: true,
            },
        ),
    }
}

impl PathPrompt {
    /// No file picker is shown.
    pub fn new() -> (prompt: Self)
        ensures
            !prompt.active,
            !prompt.has_delegate,
    {
        PathPrompt { active: false, has_delegate: false }
    }

    /// Begins to show a file picker, if it can be shown.
    pub fn prompt_for_paths(&mut self, options: PathPromptOptions) -> (result: Result<
        (),
        PathPromptError,
    >)
        ensures
            match prompt_refusal(*old(self), options) {
                Some(error) => result == Err::<(), PathPromptError>(error) && *final(self) == *old(
                    self,
                ),
                None => result is Ok && *final(self) == prompt_begun(*old(self)),
            },
    {
        if options.directories {
            return Err(PathPromptError::Directories);
        }
        if !options.files {
            return Err(PathPromptError::NoFiles);
        }
        if self.active {
            return Err(PathPromptError::AlreadyActive);
        }
        self.active = true;
        Ok(())
    }

    /// Notes what came of showing the file picker. The one who is told what is picked is set up
    /// as soon as the picker is created, and let go of again if nothing can present the picker.
    pub fn shown(&mut self, shown: PickerShown) -> (outcome: ShownOutcome)
        ensures
            (*final(self), outcome) == after_showing(*old(self), shown),
    {
        match shown {
            PickerShown::Shown => {
                self.has_delegate = true;
                ShownOutcome { error: None, releases_delegate: false }
            },
            PickerShown::NotCreated => {
                let (tells, releases_delegate) = self.finish_active_path_prompt();
                let error = if tells {
                    Some(PathPromptError::NotCreated)
                } else {
                    None
                };
                ShownOutcome { error, releases_delegate }
            },
            PickerShown::NoPresenter => {
                self.has_delegate = true;
                let (tells, releases_delegate) = self.finish_active_path_prompt();
                let error = if tells {
                    Some(PathPromptError::NoPresenter)
                } else {
                    None
                };
                ShownOutcome { error, releases_delegate }
            },
        }
    }

    /// Ends the file picker: whether someone is to be told what came of it, and whether the
    /// system is to let go of the one who was told.
    pub fn finish_active_path_prompt(&mut self) -> (ends: (bool, bool))
        ensures
            (*final(self), ends) == prompt_ended(*old(self)),
    {
        let ends = (self.active, self.has_delegate);
        self.active = false;
        self.has_delegate = false;
        ends
    }
}

/// Whatever becomes of a file picker, another one can be shown after it.
pub proof fn law_ended_picker_makes_room(options: PathPromptOptions)
    requires
        options.files,
        !options.directories,
    ensures
        prompt_refusal(PathPrompt { active: false, has_delegate: false }, options) is None,
        prompt_refusal(PathPrompt { active: true, has_delegate: true }, options) == Some(
            PathPromptError::AlreadyActive,
        ),
{
}

/// What the system tells of a picked file.
#[derive(Clone, Debug, PartialEq, Eq)]
pub struct PickedUrl {
    pub is_file: bool,
    /// The path, if the address has one.
    pub path: Option<PickedPath>,
}

/// What the system tells of a path.
#[derive(Clone, Debug, PartialEq, Eq)]
pub enum PickedPath {
    /// It cannot be told in UTF-8.
    NotUtf8,
    /// The bytes that it tells; they are read up to their first NUL.
    Bytes(Vec<u8>),
}

/// Why a picked file cannot be used.
#[derive(Clone, Copy, Debug, PartialEq, Eq, Structural)]
pub enum PickError {
    NoUrls,
    NullUrl,
    NotAFile,
    NoPath,
    NotUtf8,
    /// The bytes of the path are not UTF-8 after all.
    InvalidUtf8,
}

/// What is told of a picked file that cannot be used.
pub open spec fn pick_error_text(error: PickError) -> Option<Seq<char>> {
    match error {
        PickError::NoUrls => Some("Document picker returned no URLs"@),
        PickError::NullUrl => Some("Document picker returned a null URL"@),
        PickError::NotAFile => Some("Document picker returned a non-file URL"@),
        PickError::NoPath => Some("Document picker returned a URL without a path"@),
        PickError::NotUtf8 => Some("Document picker returned a path that was not UTF-8"@),
        PickError::InvalidUtf8 => None,
    }
}

impl PickError {
    /// What is told of it; of bytes that are not UTF-8, what the standard library tells.
    pub fn message(self) -> (message: Option<&'static str>)
        ensures
            pick_error_text(self) == match message {
                Some(message) => Some(message@),
                None => None,
            },
    {
        match self {
            PickError::NoUrls => Some("Document picker returned no URLs"),
            PickError::NullUrl => Some("Document picker returned a null URL"),
            PickError::NotAFile => Some("Document picker returned a non-file URL"),
            PickError::NoPath => Some("Document picker returned a URL without a path"),
            PickError::NotUtf8 => Some("Document picker returned a path that was not UTF-8"),
            PickError::InvalidUtf8 => None,
        }
    }
}

/// The path of a picked file.
pub open spec fn path_of_url(url: Option<PickedUrl>) -> Result<Seq<char>, PickError> {
    match url {
        None => Err(PickError::NullUrl),
        Some(url) => if !url.is_file {
            Err(PickError::NotAFile)
        } else {
            match url.path {
                None => Err(PickError::NoPath),
                Some(PickedPath::NotUtf8) => Err(PickError::NotUtf8),
                Some(PickedPath::Bytes(bytes)) => if valid_utf8(text::c_bytes(bytes@)) {
                    Ok(decode_utf8(text::c_bytes(bytes@)))
                } else {
                    Err(PickError::InvalidUtf8)
                },
            }
        },
    }
}

/// The path of a picked file.
pub fn picked_path(url: Option<PickedUrl>) -> (result: Result<String, PickError>)
    ensures
        match (result, path_of_url(url)) {
            (Ok(path), Ok(expected)) => path@ == expected,
            (Err(error), Err(expected)) => error == expected,
            _ => false,
        },
{
    match url {
        None => Err(PickError::NullUrl),
        Some(url) => if !url.is_file {
            Err(PickError::NotAFile)
        } else {
            match url.path {
                None => Err(PickError::NoPath),
                Some(PickedPath::NotUtf8) => Err(PickError::NotUtf8),
                Some(PickedPath::Bytes(bytes)) => match text::text_from_c_bytes(bytes) {
                    Some(path) => Ok(path),
                    None => Err(PickError::InvalidUtf8),
                },
            }
        },
    }
}

/// The paths of picked files: all of them, or what is wrong with the first one that cannot
/// be used.
pub open spec fn paths_of_urls(urls: Seq<Option<PickedUrl>>) -> Result<Seq<Seq<char>>, PickError>
    decreases urls.len(),
{
    if urls.len() == 0 {
        Ok(Seq::empty())
    } else {
        match paths_of_urls(urls.drop_last()) {
            Err(error) => Err(error),
            Ok(paths) => match path_of_url(urls.last()) {
                Err(error) => Err(error),
                Ok(path) => Ok(paths.push(path)),
            },
        }
    }
}

proof fn lemma_first_fault_stays(urls: Seq<Option<PickedUrl>>, count: int)
    requires
        0 <= count <= urls.len(),
        paths_of_urls(urls.take(count)) is Err,
    ensures
        paths_of_urls(urls) == paths_of_urls(urls.take(count)),
    decreases urls.len() - count,
{
    if count == urls.len() {
        assert(urls.take(count) =~= urls);
    } else {
        assert(urls.take(count + 1).drop_last() =~= urls.take(count));
        lemma_first_fault_stays(urls, count + 1);
    }
}

/// The paths of picked files.
pub fn picked_paths(urls: Option<Vec<Option<PickedUrl>>>) -> (result: Result<Vec<String>, PickError>)
    ensures
        match urls {
            None => result == Err::<Vec<String>, PickError>(PickError::NoUrls),
            Some(urls) => match (result, paths_of_urls(urls@)) {
                (Ok(paths), Ok(expected)) => text::texts(paths@) == expected,
                (Err(error), Err(expected)) => error == expected,
                _ => false,
            },
        },
{
    let mut left = match urls {
        None => {
            return Err(PickError::NoUrls);
        },
        Some(urls) => urls,
    };
    let ghost all = left@;
    let mut paths: Vec<String> = Vec::new();
    assert(all.take(0) =~= Seq::empty());
    assert(text::texts(paths@) =~= Seq::empty());
    assert(all.skip(0) =~= all);
    while left.len() > 0
        invariant
            urls is Some,
            urls->0@ == all,
            paths@.len() + left@.len() == all.len(),
            left@ == all.skip(paths@.len() as int),
            paths_of_urls(all.take(paths@.len() as int)) == Ok::<Seq<Seq<char>>, PickError>(
                text::texts(paths@),
            ),
        decreases left@.len(),
    {
        let ghost count = paths@.len() as int;
        let url = left.remove(0);
        proof {
            assert(url == all[count]);
            let taken = all.take(count + 1);
            assert(taken.drop_last() =~= all.take(count));
            assert(taken.last() == url);
            assert(left@ =~= all.skip(count + 1));
        }
        match picked_path(url) {
            Ok(path) => {
                proof {
                    assert(text::texts(paths@.push(path)) =~= text::texts(paths@).push(path@));
                }
                paths.push(path);
            },
            Err(error) => {
                proof {
                    lemma_first_fault_stays(all, count + 1);
                }
                return Err(error);
            },
        }
    }
    assert(all.take(paths@.len() as int) =~= all);
    Ok(paths)
}

// Saved passwords.

/// The status of the key chain that tells success.
pub const ERR_SEC_SUCCESS: i32 = 0;

/// The status of the key chain that tells that the user did not want to.
pub const ERR_SEC_USER_CANCELED: i32 = -128;

/// The status of the key chain that tells that there is no such item.
pub const ERR_SEC_ITEM_NOT_FOUND: i32 = -25300;

/// What is told if the key chain fails.
pub open spec fn keychain_failure(what: Seq<char>, status: i32) -> Seq<char> {
    what + " password failed: "@ + text::signed_decimal(status as int)
}

fn keychain_failure_text(what: &str, status: i32) -> (message: String)
    ensures
        message@ == keychain_failure(what@, status),
{
    let mut message = what.to_owned();
    message.append(" password failed: ");
    message.append(text::format_signed(status as i64).as_str());
    message
}

/// What follows the attempt to change a saved password.
#[derive(Clone, Debug, PartialEq, Eq)]
pub enum CredentialWrite {
    Done,
    /// There is none to change: add one.
    Add,
    Failed(String),
}

/// What follows the attempt to change a saved password.
pub enum WriteView {
    Done,
    Add,
    Failed(Seq<char>),
}

/// What follows the attempt to change a saved password: one is added if there is none.
pub open spec fn write_after_update(status: i32) -> WriteView {
    if status == ERR_SEC_ITEM_NOT_FOUND {
        WriteView::Add
    } else if status == ERR_SEC_SUCCESS {
        WriteView::Done
    } else {
        WriteView::Failed(keychain_failure("updating"@, status))
    }
}

/// Why a saved password could not be added, if it could not.
pub open spec fn add_failure(status: i32) -> Option<Seq<char>> {
    if status == ERR_SEC_SUCCESS {
        None
    } else {
        Some(keychain_failure("creating"@, status))
    }
}

/// Whether there is a saved password, or why that is not known.
pub open spec fn read_outcome(status: i32) -> Result<bool, Seq<char>> {
    if status == ERR_SEC_ITEM_NOT_FOUND || status == ERR_SEC_USER_CANCELED {
        Ok(false)
    } else if status == ERR_SEC_SUCCESS {
        Ok(true)
    } else {
        Err(keychain_failure("reading"@, status))
    }
}

/// Why a saved password could not be deleted, if it could not.
pub open spec fn delete_failure(status: i32) -> Option<Seq<char>> {
    if status == ERR_SEC_SUCCESS || status == ERR_SEC_ITEM_NOT_FOUND {
        None
    } else {
        Some(keychain_failure("delete"@, status))
    }
}

/// What follows the attempt to change a saved password.
pub fn after_credential_update(status: i32) -> (step: CredentialWrite)
    ensures
        write_after_update(status) == match step {
            CredentialWrite::Done => WriteView::Done,
            CredentialWrite::Add => WriteView::Add,
            CredentialWrite::Failed(message) => WriteView::Failed(message@),
        },
{
    if status == ERR_SEC_ITEM_NOT_FOUND {
        CredentialWrite::Add
    } else if status == ERR_SEC_SUCCESS {
        CredentialWrite::Done
    } else {
        CredentialWrite::Failed(keychain_failure_text("updating", status))
    }
}

/// What follows the attempt to add a saved password.
pub fn after_credential_add(status: i32) -> (result: Result<(), String>)
    ensures
        add_failure(status) == match result {
            Ok(_) => None,
            Err(message) => Some(message@),
        },
{
    if status == ERR_SEC_SUCCESS {
        Ok(())
    } else {
        Err(keychain_failure_text("creating", status))
    }
}

/// What the key chain tells of a saved password: the account and the password, each if it
/// is there and is what it should be.
#[derive(Clone, Debug, PartialEq, Eq)]
pub enum KeychainItem {
    NotADictionary,
    Dictionary { account: KeychainValue<String>, password: KeychainValue<Vec<u8>> },
}

/// A value of the key chain.
#[derive(Clone, Debug, PartialEq, Eq)]
pub enum KeychainValue<T> {
    Missing,
    WrongType,
    Value(T),
}

/// What is told of an item that is not what it should be.
pub open spec fn item_fault(item: KeychainItem) -> Option<Seq<char>> {
    match item {
        KeychainItem::NotADictionary => Some("keychain item was not a dictionary"@),
        KeychainItem::Dictionary { account, password } => match account {
            KeychainValue::Missing => Some("account was missing from keychain item"@),
            KeychainValue::WrongType => Some("account was not a string"@),
            KeychainValue::Value(_) => match password {
                KeychainValue::Missing => Some("password was missing from keychain item"@),
                KeychainValue::WrongType => Some("password was not data"@),
                KeychainValue::Value(_) => None,
            },
        },
    }
}

/// The account and the saved password of an item.
pub fn credentials_in_item(item: KeychainItem) -> (result: Result<(String, Vec<u8>), String>)
    ensures
        match item_fault(item) {
            Some(fault) => result is Err && result->Err_0@ == fault,
            None => {
                &&& result is Ok
                &&& item matches KeychainItem::Dictionary { account, password }
                &&& account == KeychainValue::Value(result->Ok_0.0)
                &&& password == KeychainValue::Value(result->Ok_0.1)
            },
        },
{
    match item {
        KeychainItem::NotADictionary => Err("keychain item was not a dictionary".to_owned()),
        KeychainItem::Dictionary { account, password } => match account {
            KeychainValue::Missing => Err("account was missing from keychain item".to_owned()),
            KeychainValue::WrongType => Err("account was not a string".to_owned()),
            KeychainValue::Value(username) => match password {
                KeychainValue::Missing => Err(
                    "password was missing from keychain item".to_owned(),
                ),
                KeychainValue::WrongType => Err("password was not data".to_owned()),
                KeychainValue::Value(secret) => Ok((username, secret)),
            },
        },
    }
}

/// Whether there is a saved password, from the status of the attempt to read it: none if
/// there is no such item or if the user did not want to.
pub fn after_credential_read(status: i32) -> (result: Result<bool, String>)
    ensures
        read_outcome(status) == match result {
            Ok(there) => Ok(there),
            Err(message) => Err(message@),
        },
{
    if status == ERR_SEC_ITEM_NOT_FOUND || status == ERR_SEC_USER_CANCELED {
        Ok(false)
    } else if status == ERR_SEC_SUCCESS {
        Ok(true)
    } else {
        Err(keychain_failure_text("reading", status))
    }
}

/// Whether a saved password is gone, from the status of the attempt to delete it: also if
/// there was none.
pub fn after_credential_delete(status: i32) -> (result: Result<(), String>)
    ensures
        delete_failure(status) == match result {
            Ok(_) => None,
            Err(message) => Some(message@),
        },
{
    if status == ERR_SEC_SUCCESS || status == ERR_SEC_ITEM_NOT_FOUND {
        Ok(())
    } else {
        Err(keychain_failure_text("delete", status))
    }
}

// The keyboard and the clipboard.

/// The layout of the keyboard.
#[derive(Clone, Debug, PartialEq, Eq)]
pub struct IosKeyboardLayout {
    pub id: String,
    pub name: String,
}

/// The text in bytes that are read up to their first NUL, if it is UTF-8.
pub open spec fn text_in(bytes: Seq<u8>) -> Option<Seq<char>> {
    if valid_utf8(text::c_bytes(bytes)) {
        Some(decode_utf8(text::c_bytes(bytes)))
    } else {
        None
    }
}

/// The language of a keyboard layout and what it is called, for what the system tells.
pub open spec fn layout_for(language: Option<Seq<u8>>) -> (Seq<char>, Seq<char>) {
    match language {
        Some(bytes) => match text_in(bytes) {
            Some(name) => (name, name),
            None => ("en"@, "en"@),
        },
        None => ("en"@, "English"@),
    }
}

impl IosKeyboardLayout {
    /// The layout for the language that the system tells, as bytes that are read up to their first
    /// NUL: English if it tells none.
    pub fn new(language: Option<Vec<u8>>) -> (layout: Self)
        ensures
            (layout.id@, layout.name@) == layout_for(
                match language {
                    Some(bytes) => Some(bytes@),
                    None => None,
                },
            ),
    {
        match language {
            Some(bytes) => {
                let name = match text::text_from_c_bytes(bytes) {
                    Some(name) => name,
                    None => "en".to_owned(),
                };
                IosKeyboardLayout { id: name.clone(), name }
            },
            None => IosKeyboardLayout { id: "en".to_owned(), name: "English".to_owned() },
        }
    }

    /// The language of the layout.
    pub fn id(&self) -> (id: &str)
        ensures
            id@ == self.id@,
    {
        self.id.as_str()
    }

    /// What the layout is called.
    pub fn name(&self) -> (name: &str)
        ensures
            name@ == self.name@,
    {
        self.name.as_str()
    }
}

/// Something on the clipboard.
#[derive(Clone, Debug, PartialEq, Eq)]
pub enum ClipboardEntry {
    Text(String),
    Image,
    ExternalPaths,
}

/// The text that the clipboard of the system holds once entries were written to it: the last
/// one, since each takes the place of the one before.
pub open spec fn last_text(entries: Seq<ClipboardEntry>) -> Option<Seq<char>>
    decreases entries.len(),
{
    if entries.len() == 0 {
        None
    } else {
        match entries.last() {
            ClipboardEntry::Text(content) => Some(content@),
            _ => last_text(entries.drop_last()),
        }
    }
}

/// The text that the clipboard of the system holds once entries were written to it.
pub fn clipboard_text(entries: &[ClipboardEntry]) -> (content: Option<String>)
    ensures
        text::optional(content) == last_text(entries@),
{
    let mut i: usize = entries.len();
    assert(entries@.take(i as int) =~= entries@);
    while i > 0
        invariant
            i <= entries@.len(),
            last_text(entries@) == last_text(entries@.take(i as int)),
        decreases i,
    {
        proof {
            let taken = entries@.take(i as int);
            assert(taken.drop_last() =~= entries@.take(i - 1));
            assert(taken.last() == entries@[i - 1]);
        }
        i = i - 1;
        match &entries[i] {
            ClipboardEntry::Text(content) => {
                return Some(content.clone());
            },
            _ => {},
        }
    }
    None
}

/// The text that the bytes on the clipboard of the system hold, if there are any.
pub open spec fn clipboard_content(content: Option<Seq<u8>>) -> Option<Seq<char>> {
    match content {
        Some(bytes) => text_in(bytes),
        None => None,
    }
}

/// The text that is read from the clipboard of the system, if it holds one in UTF-8: up to its
/// first NUL.
pub fn text_from_clipboard(content: Option<Vec<u8>>) -> (result: Option<String>)
    ensures
        text::optional(result) == clipboard_content(
            match content {
                Some(bytes) => Some(bytes@),
                None => None,
            },
        ),
{
    match content {
        Some(bytes) => text::text_from_c_bytes(bytes),
        None => None,
    }
}

/// Windows are dark exactly in the dark style, which has the number 2.
pub proof fn law_dark_style_is_dark(style: i64)
    ensures
        appearance_in(style) is Dark <==> style == 2,
        appearance_in(style) is Light <==> style != 2,
{
}

/// Only one who waits is told, and addresses are handed on as they came. The first window stays the
/// active one, however many follow.
pub proof fn law_only_those_who_wait_are_told(
    platform: IosPlatform,
    urls: Vec<String>,
    windows: Seq<u64>,
    handle: u64,
)
    ensures
        handed_on(platform, urls) is Some <==> platform.awaits_urls,
        handed_on(platform, urls) is Some ==> handed_on(platform, urls) == Some(urls),
        tells_end(platform) <==> platform.awaits_quit,
        first_window(windows) is None <==> windows.len() == 0,
        first_window(windows.push(handle)) == if windows.len() == 0 {
            Some(handle)
        } else {
            first_window(windows)
        },
{
}

/// A file picker is refused exactly if directories are asked for, no files are, or another one is
/// active; the reasons differ and are told in different words.
pub proof fn law_pickers_are_refused_for_a_reason(
    prompt: PathPrompt,
    options: PathPromptOptions,
    error: PathPromptError,
    other: PathPromptError,
)
    ensures
        prompt_refusal(prompt, options) is None <==> options.files && !options.directories
            && !prompt.active,
        prompt_refusal(prompt, options) == Some(PathPromptError::Directories)
            <==> options.directories,
        prompt_refusal(prompt, options) == Some(PathPromptError::AlreadyActive) ==> prompt.active,
        prompt_refusal(prompt, options) == Some(PathPromptError::NoFiles) ==> !options.files,
        prompt_error_text(error) == prompt_error_text(other) ==> error == other,
{
    reveal_strlit("Directory selection is not supported on iOS.");
    reveal_strlit("The iOS file picker only supports file selection.");
    reveal_strlit("Another iOS file picker is already active.");
    reveal_strlit("Failed to create the iOS document picker.");
    reveal_strlit("No active iOS view controller was available to present the file picker.");
    assert("Directory selection is not supported on iOS."@[0] == 'D');
    assert("The iOS file picker only supports file selection."@[0] == 'T');
    assert("Another iOS file picker is already active."@[0] == 'A');
    assert("Failed to create the iOS document picker."@[0] == 'F');
    assert("No active iOS view controller was available to present the file picker."@[0] == 'N');
}

/// A picker that was begun stays until it ends: one that is shown is waited for, one that cannot be
/// shown is told to the one who waits, and no one is left waiting or held on to afterwards.
pub proof fn law_pickers_come_to_an_end(prompt: PathPrompt, shown: PickerShown)
    ensures
        ({
            let (after, outcome) = after_showing(prompt_begun(prompt), shown);
            let (over, (tells, releases)) = prompt_ended(after);
            &&& after.active <==> shown is Shown
            &&& outcome.error is Some <==> !(shown is Shown)
            &&& shown is NotCreated ==> outcome.error == Some(PathPromptError::NotCreated)
            &&& shown is NoPresenter ==> outcome.error == Some(PathPromptError::NoPresenter)
            &&& shown is Shown ==> after.has_delegate && !outcome.releases_delegate
            &&& shown is NoPresenter ==> !after.has_delegate && outcome.releases_delegate
            &&& shown is NotCreated ==> !after.has_delegate && outcome.releases_delegate
                == prompt.has_delegate
            &&& tells <==> shown is Shown
            &&& releases <==> shown is Shown
            &&& !over.active && !over.has_delegate
            &&& prompt_ended(over) == (over, (false, false))
            &&& prompt_begun(prompt).active
            &&& prompt_begun(prompt).has_delegate == prompt.has_delegate
        }),
{
}

/// Picked files are all used or none is: their paths come in the order in which they were picked, and
/// the first fault counts.
pub proof fn law_picked_files_are_used_together(
    a: Seq<Option<PickedUrl>>,
    b: Seq<Option<PickedUrl>>,
)
    ensures
        paths_of_urls(a + b) == if paths_of_urls(a) is Err {
            paths_of_urls(a)
        } else if paths_of_urls(b) is Err {
            paths_of_urls(b)
        } else {
            Ok::<Seq<Seq<char>>, PickError>(paths_of_urls(a)->Ok_0 + paths_of_urls(b)->Ok_0)
        },
        paths_of_urls(a) is Ok ==> paths_of_urls(a)->Ok_0.len() == a.len(),
    decreases b.len(), a.len(),
{
    if a.len() > 0 {
        law_picked_files_are_used_together(a.drop_last(), Seq::empty());
    }
    if b.len() == 0 {
        assert(a + b =~= a);
        if paths_of_urls(a) is Ok {
            assert(paths_of_urls(a)->Ok_0 + paths_of_urls(b)->Ok_0 =~= paths_of_urls(a)->Ok_0);
        }
    } else {
        law_picked_files_are_used_together(a, b.drop_last());
        assert((a + b).drop_last() =~= a + b.drop_last());
        assert((a + b).last() == b.last());
        if paths_of_urls(a) is Ok && paths_of_urls(b) is Ok {
            let path = path_of_url(b.last())->Ok_0;
            assert(paths_of_urls(a)->Ok_0 + paths_of_urls(b)->Ok_0 =~= (paths_of_urls(a)->Ok_0
                + paths_of_urls(b.drop_last())->Ok_0).push(path));
        }
    }
}

/// A file that the system tells by a path without a NUL is used under that path, and every fault of a
/// picked file is told as what it is.
pub proof fn law_picked_file_is_found_by_its_path(
    url: PickedUrl,
    bytes: Vec<u8>,
    path: Seq<char>,
    error: PickError,
    other: PickError,
)
    requires
        bytes@ == encode_utf8(path),
        forall|i: int| 0 <= i < bytes@.len() ==> (#[trigger] bytes@[i]) != 0,
    ensures
        url.is_file && url.path == Some(PickedPath::Bytes(bytes)) ==> path_of_url(Some(url)) == Ok::<
            Seq<char>,
            PickError,
        >(path),
        path_of_url(None) == Err::<Seq<char>, PickError>(PickError::NullUrl),
        path_of_url(Some(url)) == Err::<Seq<char>, PickError>(PickError::NotAFile)
            <==> !url.is_file,
        url.is_file ==> (path_of_url(Some(url)) == Err::<Seq<char>, PickError>(PickError::NoPath)
            <==> url.path is None),
        url.is_file ==> (path_of_url(Some(url)) == Err::<Seq<char>, PickError>(PickError::NotUtf8)
            <==> url.path == Some(PickedPath::NotUtf8)),
        pick_error_text(error) is None <==> error is InvalidUtf8,
        pick_error_text(error) == pick_error_text(other) ==> error == other,
        text_in(bytes@) == Some(path),
        layout_for(Some(bytes@)) == (path, path),
        clipboard_content(Some(bytes@)) == Some(path),
{
    text::lemma_c_bytes_of_free(bytes@);
    encode_utf8_valid_utf8(path);
    encode_utf8_decode_utf8(path);
    reveal_strlit("Document picker returned no URLs");
    reveal_strlit("Document picker returned a null URL");
    reveal_strlit("Document picker returned a non-file URL");
    reveal_strlit("Document picker returned a URL without a path");
    reveal_strlit("Document picker returned a path that was not UTF-8");
    assert("Document picker returned no URLs"@.len() == 32);
    assert("Document picker returned a null URL"@.len() == 35);
    assert("Document picker returned a non-file URL"@.len() == 39);
    assert("Document picker returned a URL without a path"@.len() == 45);
    assert("Document picker returned a path that was not UTF-8"@.len() == 50);
}

/// Without a language that can be read the keyboard counts as an English one, and nothing is read
/// from an empty clipboard.
pub proof fn law_keyboards_are_english_otherwise(bytes: Seq<u8>)
    ensures
        layout_for(None) == ("en"@, "English"@),
        text_in(bytes) is None ==> layout_for(Some(bytes)).0 == "en"@,
        layout_for(Some(bytes)).0 == layout_for(Some(bytes)).1,
        clipboard_content(None) is None,
        clipboard_content(Some(bytes)) == text_in(bytes),
{
}

/// A password that is saved is changed if there is one and added if there is none: the statuses that
/// the key chain gives for both lead to success. Nothing but success counts as having added it.
pub proof fn law_passwords_are_changed_or_added(status: i32)
    ensures
        write_after_update(status) is Done <==> status == 0,
        write_after_update(status) is Add <==> status == -25300,
        add_failure(status) is None <==> status == 0,
        read_outcome(status) == Ok::<bool, Seq<char>>(true) <==> status == 0,
        read_outcome(status) == Ok::<bool, Seq<char>>(false) <==> status == -25300 || status
            == -128,
        delete_failure(status) is None <==> status == 0 || status == -25300,
{
}

/// Every other status is a failure that ends with its number, so that different statuses are told
/// apart, and begins with what was tried.
pub proof fn law_key_chain_failures_tell_the_status(what: Seq<char>, status: i32, other: i32)
    ensures
        what.is_prefix_of(keychain_failure(what, status)),
        text::signed_decimal(status as int).is_suffix_of(keychain_failure(what, status)),
        keychain_failure(what, status) == keychain_failure(what, other) ==> status == other,
        write_after_update(status) is Failed ==> write_after_update(status)
            == WriteView::Failed(keychain_failure("updating"@, status)),
        add_failure(status) is Some ==> add_failure(status) == Some(
            keychain_failure("creating"@, status),
        ),
        read_outcome(status) is Err ==> read_outcome(status) == Err::<bool, Seq<char>>(
            keychain_failure("reading"@, status),
        ),
        delete_failure(status) is Some ==> delete_failure(status) == Some(
            keychain_failure("delete"@, status),
        ),
{
    let message = keychain_failure(what, status);
    let other_message = keychain_failure(what, other);
    let digits = text::signed_decimal(status as int);
    let other_digits = text::signed_decimal(other as int);
    let start = what + " password failed: "@;
    assert(message.subrange(0, what.len() as int) =~= what);
    assert(message.subrange(message.len() - digits.len(), message.len() as int) =~= digits);
    if message == other_message {
        assert(digits =~= message.skip(start.len() as int));
        assert(other_digits =~= message.skip(start.len() as int));
        text::lemma_signed_decimal_tells(status as int, other as int);
    }
}

/// An item of the key chain is used exactly if it tells both the account and the password; the
/// account is looked at first.
pub proof fn law_items_need_account_and_password(
    account: KeychainValue<String>,
    password: KeychainValue<Vec<u8>>,
)
    ensures
        ({
            let item = KeychainItem::Dictionary { account, password };
            &&& item_fault(item) is None <==> account is Value && password is Value
            &&& !(account is Value) ==> item_fault(item) == item_fault(
                KeychainItem::Dictionary { account, password: KeychainValue::Missing },
            )
            &&& account is Missing ==> item_fault(item) == Some(
                "account was missing from keychain item"@,
            )
            &&& account is Value && password is Missing ==> item_fault(item) == Some(
                "password was missing from keychain item"@,
            )
            &&& item_fault(KeychainItem::NotADictionary) is Some
        }),
{
}

/// The clipboard holds the text that was written last, whatever else was written, and none exactly if
/// no text was.
pub proof fn law_last_written_text_is_held(entries: Seq<ClipboardEntry>, entry: ClipboardEntry)
    ensures
        entry matches ClipboardEntry::Text(content) ==> last_text(entries.push(entry)) == Some(
            content@,
        ),
        !(entry is Text) ==> last_text(entries.push(entry)) == last_text(entries),
        last_text(entries) is None <==> forall|i: int|
            0 <= i < entries.len() ==> !((#[trigger] entries[i]) is Text),
    decreases entries.len(),
{
    assert(entries.push(entry).drop_last() =~= entries);
    if entries.len() > 0 {
        let front = entries.drop_last();
        law_last_written_text_is_held(front, entry);
        if last_text(entries) is None {
            assert forall|i: int| 0 <= i < entries.len() implies !(
            (#[trigger] entries[i]) is Text) by {
                if i < front.len() {
                    assert(front[i] == entries[i]);
                }
            }
        }
        if forall|i: int| 0 <= i < entries.len() ==> !((#[trigger] entries[i]) is Text) {
            assert(!(entries[entries.len() - 1] is Text));
            assert forall|i: int| 0 <= i < front.len() implies !((#[trigger] front[i]) is Text) by {
                assert(front[i] == entries[i]);
            }
        }
    }
}

} // verus!
