use vstd::prelude::*;
use vstd::string::StringExecFns;

verus! {

/// What peers send each other over the chat stream.
#[derive(Clone, Debug, PartialEq, Eq)]
pub enum ChatMessage {
    /// A line of text.
    Text(String),
    /// An offer of a file.
    FileOffer { file_id: u64, file_size: u64 },
    /// A request for an offered file.
    FileRequest(u64),
}

/// The message that carries what the user typed.
pub fn text_message(text: String) -> (r: ChatMessage)
    ensures
        r == ChatMessage::Text(text),
{
    ChatMessage::Text(text)
}

/// The text to show for a message from the peer, if the chat shows that kind of message:
/// only text is shown; offers and requests of files are not handled.
pub fn incoming_text(message: ChatMessage) -> (r: Option<String>)
    ensures
        match message {
            ChatMessage::Text(t) => r == Some(t),
            _ => r is None,
        },
        match r {
            Some(t) => shown_text(message) == Some(t@),
            None => shown_text(message) is None,
        },
{
    match message {
        ChatMessage::Text(t) => Some(t),
        _ => None,
    }
}

fn prefixed(prefix: &str, text: &str) -> (r: String)
    ensures
        r@ == prefix@ + text@,
{
    let mut r = String::from_str(prefix);
    r.append(text);
    r
}

/// The first line of a chat window, naming the profile.
pub fn chat_title(profile_name: &str) -> (r: String)
    ensures
        r@ == "chat for profile: "@ + profile_name@,
{
    prefixed("chat for profile: ", profile_name)
}

/// The line shown for what the user sent.
pub fn own_line(text: &str) -> (r: String)
    ensures
        r@ == "you: "@ + text@,
{
    prefixed("you: ", text)
}

/// The line shown for what the peer sent.
pub fn peer_line(text: &str) -> (r: String)
    ensures
        r@ == "peer: "@ + text@,
        r@ == peer_line_spec(text@),
{
    prefixed("peer: ", text)
}

/// The text that a message from the peer shows, if the chat shows that kind of message.
pub open spec fn shown_text(message: ChatMessage) -> Option<Seq<char>> {
    match message {
        ChatMessage::Text(t) => Some(t@),
        _ => None,
    }
}

/// The line shown for a text from the peer.
pub open spec fn peer_line_spec(text: Seq<char>) -> Seq<char> {
    "peer: "@ + text
}

/// The lines that a chat window shows for the messages that the peer sends over its
/// stream, one after the other: one line per text, in order, up to the first message
/// that the chat does not show, where the reader stops.
pub open spec fn peer_lines(messages: Seq<ChatMessage>) -> Seq<Seq<char>>
    decreases messages.len(),
{
    if messages.len() == 0 {
        seq![]
    } else {
        match shown_text(messages[0]) {
            Some(t) => seq![peer_line_spec(t)] + peer_lines(messages.drop_first()),
            None => seq![],
        }
    }
}

/// A peer that sends texts `m_0, ..., m_k` gets exactly `k + 1` lines shown, the `i`-th
/// being `peer: m_i`; when it sends a message that the chat does not show, the lines stop
/// before it.
pub proof fn lemma_peer_lines_in_order(messages: Seq<ChatMessage>, k: int)
    requires
        0 <= k <= messages.len(),
        forall|i: int| 0 <= i < k ==> (#[trigger] messages[i]) is Text,
        k < messages.len() ==> !(messages[k] is Text),
    ensures
        peer_lines(messages).len() == k,
        forall|i: int|
            0 <= i < k ==> (#[trigger] peer_lines(messages)[i]) == peer_line_spec(
                shown_text(messages[i])->Some_0,
            ),
    decreases messages.len(),
{
    if messages.len() > 0 {
        if k == 0 {
        } else {
            let rest = messages.drop_first();
            assert forall|i: int| 0 <= i < k - 1 implies (#[trigger] rest[i]) is Text by {
                assert(rest[i] == messages[i + 1]);
            }
            if k - 1 < rest.len() {
                assert(rest[k - 1] == messages[k]);
            }
            lemma_peer_lines_in_order(rest, k - 1);
            let l = peer_lines(messages);
            assert forall|i: int| 0 <= i < k implies (#[trigger] l[i]) == peer_line_spec(
                shown_text(messages[i])->Some_0,
            ) by {
                if i > 0 {
                    assert(l[i] == peer_lines(rest)[i - 1]);
                    assert(rest[i - 1] == messages[i]);
                }
            }
        }
    }
}

/// The longest side that a shown image may have.
pub const MAX_IMAGE_SIDELENGTH: i32 = 100;

/// The smaller of two numbers.
pub open spec fn min_int(a: int, b: int) -> int {
    if a <= b {
        a
    } else {
        b
    }
}

/// The size at which an image of `width` by `height` pixels is shown: scaled down, keeping
/// its proportions as integer division allows, until both sides fit the limit; a smaller
/// image keeps its size.
pub open spec fn thumbnail_spec(width: int, height: int) -> (int, int) {
    let width0 = min_int(width, MAX_IMAGE_SIDELENGTH as int);
    let height0 = width0 * height / width;
    let height1 = min_int(height, MAX_IMAGE_SIDELENGTH as int);
    let width1 = height1 * width / height;
    (min_int(width0, width1), min_int(height0, height1))
}

/// The size at which an image is shown. The products in the computation fit in an `i32`.
pub fn thumbnail_size(width: i32, height: i32) -> (r: (i32, i32))
    requires
        width > 0,
        height > 0,
        min_int(width as int, MAX_IMAGE_SIDELENGTH as int) * height <= i32::MAX,
        min_int(height as int, MAX_IMAGE_SIDELENGTH as int) * width <= i32::MAX,
    ensures
        (r.0 as int, r.1 as int) == thumbnail_spec(width as int, height as int),
        0 <= r.0 <= MAX_IMAGE_SIDELENGTH,
        0 <= r.1 <= MAX_IMAGE_SIDELENGTH,
        r.0 <= width,
        r.1 <= height,
{
    let width0: i32 = if width < MAX_IMAGE_SIDELENGTH { width } else { MAX_IMAGE_SIDELENGTH };
    let height1: i32 = if height < MAX_IMAGE_SIDELENGTH { height } else { MAX_IMAGE_SIDELENGTH };
    assert(0 <= width0 * height) by (nonlinear_arith)
        requires
            width0 >= 0,
            height > 0,
    ;
    assert(0 <= height1 * width) by (nonlinear_arith)
        requires
            height1 >= 0,
            width > 0,
    ;
    let height0: i32 = width0 * height / width;
    let width1: i32 = height1 * width / height;
    assert(height0 <= height) by (nonlinear_arith)
        requires
            height0 as int == (width0 as int) * (height as int) / (width as int),
            0 < width0 <= width,
            height > 0,
    ;
    assert(width1 <= width) by (nonlinear_arith)
        requires
            width1 as int == (height1 as int) * (width as int) / (height as int),
            0 < height1 <= height,
            width > 0,
    ;
    assert(height0 >= 0 && width1 >= 0) by (nonlinear_arith)
        requires
            height0 as int == (width0 as int) * (height as int) / (width as int),
            width1 as int == (height1 as int) * (width as int) / (height as int),
            width0 > 0,
            height1 > 0,
            width > 0,
            height > 0,
    ;
    let w: i32 = if width0 <= width1 { width0 } else { width1 };
    let h: i32 = if height0 <= height1 { height0 } else { height1 };
    (w, h)
}

/// How the program starts, from its command-line arguments (the program's name first).
#[derive(Clone, Debug, PartialEq, Eq)]
pub enum StartupChoice {
    /// The profile was named on the command line: open it at once.
    OpenProfile(String),
    /// Ask the user for a profile.
    AskForProfile,
}

/// A profile named as the only argument is opened directly; otherwise the user is asked.
pub fn startup_choice(args: &Vec<String>) -> (r: StartupChoice)
    ensures
        args@.len() == 2 ==> r == StartupChoice::OpenProfile(args@[1]),
        args@.len() != 2 ==> r == StartupChoice::AskForProfile,
{
    if args.len() == 2 {
        StartupChoice::OpenProfile(args[1].clone())
    } else {
        StartupChoice::AskForProfile
    }
}

/// More than one argument earns a reminder of the usage.
pub fn shows_usage(arg_count: usize) -> (r: bool)
    ensures
        r == (arg_count > 2),
{
    arg_count > 2
}

} // verus!
