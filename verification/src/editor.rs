//! Rules of the plugin editor that do not depend on drawing: when the
//! background texture must be uploaded again, which parameter-gesture actions a
//! slider's pointer events give, and the text of a value window.

use vstd::prelude::*;

verus! {

// ---------------------------------------------------------------------------
// Background texture
// ---------------------------------------------------------------------------

/// Whether the background texture has to be loaded again before drawing: the
/// texture manager of the window is not the one the texture was loaded into,
/// or no texture is held, or the held texture has size 0 x 0 (it was freed).
pub open spec fn needs_texture_reload_spec(
    loaded_manager: usize,
    current_manager: usize,
    loaded_texture_size: Option<(usize, usize)>,
) -> bool {
    loaded_manager != current_manager || match loaded_texture_size {
        Some(size) => size.0 == 0 && size.1 == 0,
        None => true,
    }
}

/// Decides whether the background texture is loaded again (see
/// `needs_texture_reload_spec`).
pub fn needs_texture_reload(
    loaded_manager: usize,
    current_manager: usize,
    loaded_texture_size: Option<(usize, usize)>,
) -> (reload: bool)
    ensures
        reload == needs_texture_reload_spec(loaded_manager, current_manager, loaded_texture_size),
{
    loaded_manager != current_manager || match loaded_texture_size {
        Some(size) => size.0 == 0 && size.1 == 0,
        None => true,
    }
}

/// A change of texture manager always forces a reload, whatever the texture;
/// with the same manager, the texture is loaded again exactly when none is
/// held or the held one is 0 x 0, so a loaded non-empty texture is kept.
pub proof fn lemma_texture_reload_cases(
    loaded_manager: usize,
    current_manager: usize,
    loaded_texture_size: Option<(usize, usize)>,
)
    ensures
        loaded_manager != current_manager ==> needs_texture_reload_spec(
            loaded_manager,
            current_manager,
            loaded_texture_size,
        ),
        loaded_texture_size is None ==> needs_texture_reload_spec(
            loaded_manager,
            current_manager,
            loaded_texture_size,
        ),
        loaded_texture_size == Some((0usize, 0usize)) ==> needs_texture_reload_spec(
            loaded_manager,
            current_manager,
            loaded_texture_size,
        ),
        forall|w: usize, h: usize|
            loaded_manager == current_manager && (w != 0 || h != 0) && loaded_texture_size == Some(
                (w, h),
            ) ==> !#[trigger] needs_texture_reload_spec(
                loaded_manager,
                current_manager,
                Some((w, h)),
            ),
{
}

// ---------------------------------------------------------------------------
// Slider gestures
// ---------------------------------------------------------------------------

/// The pointer events a vertical slider received in one frame.
#[derive(Clone, Copy, Debug, PartialEq, Eq)]
pub struct SliderResponse {
    /// A drag started on the slider in this frame.
    pub drag_started: bool,
    /// The slider is being dragged in this frame.
    pub dragged: bool,
    /// A drag on the slider ended in this frame.
    pub drag_stopped: bool,
    /// The slider was clicked in this frame.
    pub clicked: bool,
    /// The position of the interacting pointer is known in this frame.
    pub has_pointer: bool,
}

/// What the editor does to the slider's parameter, in order.
#[derive(Clone, Copy, Debug, PartialEq, Eq)]
pub enum SliderAction {
    /// Tell the host that an automation gesture on the parameter starts.
    BeginGesture,
    /// Set the parameter from the pointer's height on the slider.
    SetFromPointer,
    /// Tell the host that the automation gesture ends.
    EndGesture,
}

/// `s` if `b`, else nothing.
pub open spec fn when(b: bool, s: Seq<SliderAction>) -> Seq<SliderAction> {
    if b {
        s
    } else {
        Seq::empty()
    }
}

/// The actions for one frame's events: a started drag opens a gesture, a drag
/// with a known pointer sets the value, a stopped drag closes the gesture, and
/// a click with a known pointer is a complete gesture of its own.
pub open spec fn slider_actions_spec(r: SliderResponse) -> Seq<SliderAction> {
    when(r.drag_started, seq![SliderAction::BeginGesture])
        + when(r.dragged && r.has_pointer, seq![SliderAction::SetFromPointer])
        + when(r.drag_stopped, seq![SliderAction::EndGesture])
        + when(
        r.clicked && r.has_pointer,
        seq![SliderAction::BeginGesture, SliderAction::SetFromPointer, SliderAction::EndGesture],
    )
}

/// The actions for one frame's events (see `slider_actions_spec`).
pub fn slider_actions(r: SliderResponse) -> (actions: Vec<SliderAction>)
    ensures
        actions@ == slider_actions_spec(r),
{
    let mut actions: Vec<SliderAction> = Vec::new();
    if r.drag_started {
        actions.push(SliderAction::BeginGesture);
    }
    let ghost a1 = actions@;
    assert(a1 =~= when(r.drag_started, seq![SliderAction::BeginGesture]));
    if r.dragged && r.has_pointer {
        actions.push(SliderAction::SetFromPointer);
    }
    let ghost a2 = actions@;
    assert(a2 =~= a1 + when(r.dragged && r.has_pointer, seq![SliderAction::SetFromPointer]));
    if r.drag_stopped {
        actions.push(SliderAction::EndGesture);
    }
    let ghost a3 = actions@;
    assert(a3 =~= a2 + when(r.drag_stopped, seq![SliderAction::EndGesture]));
    if r.clicked && r.has_pointer {
        actions.push(SliderAction::BeginGesture);
        actions.push(SliderAction::SetFromPointer);
        actions.push(SliderAction::EndGesture);
    }
    assert(actions@ =~= a3 + when(
        r.clicked && r.has_pointer,
        seq![SliderAction::BeginGesture, SliderAction::SetFromPointer, SliderAction::EndGesture],
    ));
    actions
}

/// How much an action changes the number of open gestures.
pub open spec fn gesture_delta(a: SliderAction) -> int {
    match a {
        SliderAction::BeginGesture => 1,
        SliderAction::SetFromPointer => 0,
        SliderAction::EndGesture => -1,
    }
}

/// Opened minus closed gestures over a sequence of actions.
pub open spec fn gesture_balance(s: Seq<SliderAction>) -> int
    decreases s.len(),
{
    if s.len() == 0 {
        0
    } else {
        gesture_delta(s[0]) + gesture_balance(s.drop_first())
    }
}

proof fn lemma_gesture_balance_concat(a: Seq<SliderAction>, b: Seq<SliderAction>)
    ensures
        gesture_balance(a + b) == gesture_balance(a) + gesture_balance(b),
    decreases a.len(),
{
    if a.len() == 0 {
        assert(a + b =~= b);
    } else {
        assert((a + b).drop_first() =~= a.drop_first() + b);
        lemma_gesture_balance_concat(a.drop_first(), b);
    }
}

/// A frame opens a gesture exactly when a drag starts and closes one exactly
/// when a drag stops: the click path always opens and closes its own gesture,
/// so over the frames of a drag the host sees as many gesture ends as starts.
pub proof fn lemma_slider_gestures_balance(r: SliderResponse)
    ensures
        gesture_balance(slider_actions_spec(r)) == (if r.drag_started {
            1int
        } else {
            0int
        }) - (if r.drag_stopped {
            1int
        } else {
            0int
        }),
{
    let p1 = when(r.drag_started, seq![SliderAction::BeginGesture]);
    let p2 = when(r.dragged && r.has_pointer, seq![SliderAction::SetFromPointer]);
    let p3 = when(r.drag_stopped, seq![SliderAction::EndGesture]);
    let p4 = when(
        r.clicked && r.has_pointer,
        seq![SliderAction::BeginGesture, SliderAction::SetFromPointer, SliderAction::EndGesture],
    );
    lemma_gesture_balance_concat(p1, p2);
    lemma_gesture_balance_concat(p1 + p2, p3);
    lemma_gesture_balance_concat(p1 + p2 + p3, p4);
    reveal_with_fuel(gesture_balance, 4);
    assert(p1.len() > 0 ==> p1.drop_first() =~= Seq::<SliderAction>::empty());
    assert(p2.len() > 0 ==> p2.drop_first() =~= Seq::<SliderAction>::empty());
    assert(p3.len() > 0 ==> p3.drop_first() =~= Seq::<SliderAction>::empty());
    if r.clicked && r.has_pointer {
        assert(p4.drop_first() =~= seq![SliderAction::SetFromPointer, SliderAction::EndGesture]);
        assert(p4.drop_first().drop_first() =~= seq![SliderAction::EndGesture]);
        assert(p4.drop_first().drop_first().drop_first() =~= Seq::<SliderAction>::empty());
    }
}

/// Which actions a frame gives, in terms of its events: a gesture is opened
/// only by a started drag or by a click with a known pointer, the value is set
/// only with a known pointer on a drag or a click, a gesture is closed only by
/// a stopped drag or by such a click, a started drag opens its gesture before
/// anything else, and a frame without any event does nothing.
pub proof fn lemma_slider_actions_follow_events(r: SliderResponse)
    ensures
        ({
            let s = slider_actions_spec(r);
            &&& s.contains(SliderAction::BeginGesture) <==> (r.drag_started || (r.clicked
                && r.has_pointer))
            &&& s.contains(SliderAction::SetFromPointer) <==> (r.has_pointer && (r.dragged
                || r.clicked))
            &&& s.contains(SliderAction::EndGesture) <==> (r.drag_stopped || (r.clicked
                && r.has_pointer))
            &&& r.drag_started ==> s[0] == SliderAction::BeginGesture
            &&& (!r.drag_started && !r.dragged && !r.drag_stopped && !r.clicked) ==> s.len() == 0
            &&& s.len() == (if r.drag_started { 1int } else { 0int }) + (if r.dragged
                && r.has_pointer { 1int } else { 0int }) + (if r.drag_stopped { 1int } else { 0int })
                + (if r.clicked && r.has_pointer { 3int } else { 0int })
        }),
{
    let s = slider_actions_spec(r);
    if r.drag_started {
        if r.dragged && r.has_pointer {
            if r.drag_stopped {
                if r.clicked && r.has_pointer {
                    assert(s =~= seq![SliderAction::BeginGesture, SliderAction::SetFromPointer, SliderAction::EndGesture, SliderAction::BeginGesture, SliderAction::SetFromPointer, SliderAction::EndGesture]);
                    assert(s[0] == SliderAction::BeginGesture);
                    assert(s[1] == SliderAction::SetFromPointer);
                    assert(s[2] == SliderAction::EndGesture);
                    assert(s[3] == SliderAction::BeginGesture);
                    assert(s[4] == SliderAction::SetFromPointer);
                    assert(s[5] == SliderAction::EndGesture);
                } else {
                    assert(s =~= seq![SliderAction::BeginGesture, SliderAction::SetFromPointer, SliderAction::EndGesture]);
                    assert(s[0] == SliderAction::BeginGesture);
                    assert(s[1] == SliderAction::SetFromPointer);
                    assert(s[2] == SliderAction::EndGesture);
                }
            } else {
                if r.clicked && r.has_pointer {
                    assert(s =~= seq![SliderAction::BeginGesture, SliderAction::SetFromPointer, SliderAction::BeginGesture, SliderAction::SetFromPointer, SliderAction::EndGesture]);
                    assert(s[0] == SliderAction::BeginGesture);
                    assert(s[1] == SliderAction::SetFromPointer);
                    assert(s[2] == SliderAction::BeginGesture);
                    assert(s[3] == SliderAction::SetFromPointer);
                    assert(s[4] == SliderAction::EndGesture);
                } else {
                    assert(s =~= seq![SliderAction::BeginGesture, SliderAction::SetFromPointer]);
                    assert(s[0] == SliderAction::BeginGesture);
                    assert(s[1] == SliderAction::SetFromPointer);
                }
            }
        } else {
            if r.drag_stopped {
                if r.clicked && r.has_pointer {
                    assert(s =~= seq![SliderAction::BeginGesture, SliderAction::EndGesture, SliderAction::BeginGesture, SliderAction::SetFromPointer, SliderAction::EndGesture]);
                    assert(s[0] == SliderAction::BeginGesture);
                    assert(s[1] == SliderAction::EndGesture);
                    assert(s[2] == SliderAction::BeginGesture);
                    assert(s[3] == SliderAction::SetFromPointer);
                    assert(s[4] == SliderAction::EndGesture);
                } else {
                    assert(s =~= seq![SliderAction::BeginGesture, SliderAction::EndGesture]);
                    assert(s[0] == SliderAction::BeginGesture);
                    assert(s[1] == SliderAction::EndGesture);
                }
            } else {
                if r.clicked && r.has_pointer {
                    assert(s =~= seq![SliderAction::BeginGesture, SliderAction::BeginGesture, SliderAction::SetFromPointer, SliderAction::EndGesture]);
                    assert(s[0] == SliderAction::BeginGesture);
                    assert(s[1] == SliderAction::BeginGesture);
                    assert(s[2] == SliderAction::SetFromPointer);
                    assert(s[3] == SliderAction::EndGesture);
                } else {
                    assert(s =~= seq![SliderAction::BeginGesture]);
                    assert(s[0] == SliderAction::BeginGesture);
                }
            }
        }
    } else {
        if r.dragged && r.has_pointer {
            if r.drag_stopped {
                if r.clicked && r.has_pointer {
                    assert(s =~= seq![SliderAction::SetFromPointer, SliderAction::EndGesture, SliderAction::BeginGesture, SliderAction::SetFromPointer, SliderAction::EndGesture]);
                    assert(s[0] == SliderAction::SetFromPointer);
                    assert(s[1] == SliderAction::EndGesture);
                    assert(s[2] == SliderAction::BeginGesture);
                    assert(s[3] == SliderAction::SetFromPointer);
                    assert(s[4] == SliderAction::EndGesture);
                } else {
                    assert(s =~= seq![SliderAction::SetFromPointer, SliderAction::EndGesture]);
                    assert(s[0] == SliderAction::SetFromPointer);
                    assert(s[1] == SliderAction::EndGesture);
                }
            } else {
                if r.clicked && r.has_pointer {
                    assert(s =~= seq![SliderAction::SetFromPointer, SliderAction::BeginGesture, SliderAction::SetFromPointer, SliderAction::EndGesture]);
                    assert(s[0] == SliderAction::SetFromPointer);
                    assert(s[1] == SliderAction::BeginGesture);
                    assert(s[2] == SliderAction::SetFromPointer);
                    assert(s[3] == SliderAction::EndGesture);
                } else {
                    assert(s =~= seq![SliderAction::SetFromPointer]);
                    assert(s[0] == SliderAction::SetFromPointer);
                }
            }
        } else {
            if r.drag_stopped {
                if r.clicked && r.has_pointer {
                    assert(s =~= seq![SliderAction::EndGesture, SliderAction::BeginGesture, SliderAction::SetFromPointer, SliderAction::EndGesture]);
                    assert(s[0] == SliderAction::EndGesture);
                    assert(s[1] == SliderAction::BeginGesture);
                    assert(s[2] == SliderAction::SetFromPointer);
                    assert(s[3] == SliderAction::EndGesture);
                } else {
                    assert(s =~= seq![SliderAction::EndGesture]);
                    assert(s[0] == SliderAction::EndGesture);
                }
            } else {
                if r.clicked && r.has_pointer {
                    assert(s =~= seq![SliderAction::BeginGesture, SliderAction::SetFromPointer, SliderAction::EndGesture]);
                    assert(s[0] == SliderAction::BeginGesture);
                    assert(s[1] == SliderAction::SetFromPointer);
                    assert(s[2] == SliderAction::EndGesture);
                } else {
                    assert(s =~= Seq::<SliderAction>::empty());
                }
            }
        }
    }
}

// ---------------------------------------------------------------------------
// Value window text
// ---------------------------------------------------------------------------

/// Width, in characters, of the number shown in a value window.
pub const VALUE_TEXT_WIDTH: usize = 3;

/// The character of the decimal digit `d`.
pub open spec fn digit_char(d: nat) -> char {
    if d == 0 {
        '0'
    } else if d == 1 {
        '1'
    } else if d == 2 {
        '2'
    } else if d == 3 {
        '3'
    } else if d == 4 {
        '4'
    } else if d == 5 {
        '5'
    } else if d == 6 {
        '6'
    } else if d == 7 {
        '7'
    } else if d == 8 {
        '8'
    } else {
        '9'
    }
}

/// The decimal digits of `n`, most significant first, without leading zeros.
pub open spec fn decimal(n: nat) -> Seq<char>
    decreases n,
{
    if n < 10 {
        seq![digit_char(n)]
    } else {
        decimal(n / 10).push(digit_char(n % 10))
    }
}

/// `v` in decimal, with a leading `-` when it is negative.
pub open spec fn signed_decimal(v: int) -> Seq<char> {
    if v < 0 {
        seq!['-'] + decimal((-v) as nat)
    } else {
        decimal(v as nat)
    }
}

/// `s` right-aligned in a field of `width` characters: padded on the left with
/// spaces when shorter, unchanged otherwise.
pub open spec fn right_aligned(s: Seq<char>, width: nat) -> Seq<char> {
    if s.len() < width {
        Seq::new((width - s.len()) as nat, |i: int| ' ') + s
    } else {
        s
    }
}

fn digit_to_char(d: u32) -> (c: char)
    requires
        d < 10,
    ensures
        c == digit_char(d as nat),
{
    match d {
        0 => '0',
        1 => '1',
        2 => '2',
        3 => '3',
        4 => '4',
        5 => '5',
        6 => '6',
        7 => '7',
        8 => '8',
        _ => '9',
    }
}

/// The decimal digits of `n`.
fn decimal_digits(n: u32) -> (digits: Vec<char>)
    ensures
        digits@ == decimal(n as nat),
{
    let mut m: u32 = n;
    let mut digits: Vec<char> = Vec::new();
    while m >= 10
        invariant
            decimal(n as nat) == decimal(m as nat) + digits@,
        decreases m,
    {
        let ghost before = digits@;
        digits.insert(0, digit_to_char(m % 10));
        assert(decimal(m as nat) == decimal((m / 10) as nat).push(digit_char((m % 10) as nat)));
        assert(decimal(m as nat) + before =~= decimal((m / 10) as nat) + digits@);
        m = m / 10;
    }
    let ghost before = digits@;
    digits.insert(0, digit_to_char(m));
    assert(decimal(m as nat) + before =~= digits@);
    digits
}

/// Collects `chars` into a `String` with std's `Iterator::collect`
/// (`FromIterator<&char> for String`); the contract claims that the string
/// holds exactly those characters, in order.
#[verifier::external_body]
fn string_from_chars(chars: &Vec<char>) -> (s: String)
    ensures
        s@ == chars@,
{
    chars.iter().collect()
}

/// The characters shown in a value window for the whole number `value`:
/// `value` in decimal, right-aligned in `VALUE_TEXT_WIDTH` characters.
pub fn value_window_chars(value: i32) -> (text: Vec<char>)
    ensures
        text@ == right_aligned(signed_decimal(value as int), VALUE_TEXT_WIDTH as nat),
{
    let negative = value < 0;
    let magnitude: u32 = if negative {
        (-(value as i64)) as u32
    } else {
        value as u32
    };
    let digits = decimal_digits(magnitude);
    let room: usize = if negative {
        VALUE_TEXT_WIDTH - 1
    } else {
        VALUE_TEXT_WIDTH
    };
    let ghost body = signed_decimal(value as int);
    assert(body =~= if negative {
        seq!['-'] + digits@
    } else {
        digits@
    });
    let mut text: Vec<char> = Vec::new();
    if digits.len() < room {
        let pad: usize = room - digits.len();
        let mut k: usize = 0;
        while k < pad
            invariant
                k <= pad,
                text@ =~= Seq::new(k as nat, |i: int| ' '),
            decreases pad - k,
        {
            text.push(' ');
            k = k + 1;
        }
    }
    let ghost padding = text@;
    if negative {
        text.push('-');
    }
    let mut j: usize = 0;
    let ghost prefix = text@;
    while j < digits.len()
        invariant
            j <= digits@.len(),
            text@ =~= prefix + digits@.subrange(0, j as int),
        decreases digits@.len() - j,
    {
        text.push(digits[j]);
        j = j + 1;
    }
    assert(digits@.subrange(0, digits@.len() as int) =~= digits@);
    assert(text@ =~= padding + body);
    assert(text@ =~= right_aligned(body, VALUE_TEXT_WIDTH as nat));
    text
}

/// The text shown in a value window for the whole number `value`
/// (see `value_window_chars`).
pub fn value_window_text(value: i32) -> (text: String)
    ensures
        text@ == right_aligned(signed_decimal(value as int), VALUE_TEXT_WIDTH as nat),
{
    let chars = value_window_chars(value);
    string_from_chars(&chars)
}

/// Every value a window shows (a percentage from 0 to 100) takes exactly three
/// characters, with its units digit last, its tens digit (or a space below 10)
/// in the middle and its hundreds digit (or a space below 100) first.
pub proof fn lemma_percentage_text_is_three_columns(value: int)
    requires
        0 <= value <= 100,
    ensures
        ({
            let t = right_aligned(signed_decimal(value), VALUE_TEXT_WIDTH as nat);
            &&& t.len() == 3
            &&& t[2] == digit_char((value % 10) as nat)
            &&& t[1] == if value >= 10 {
                digit_char(((value / 10) % 10) as nat)
            } else {
                ' '
            }
            &&& t[0] == if value >= 100 {
                digit_char((value / 100) as nat)
            } else {
                ' '
            }
        }),
{
    let n = value as nat;
    if n >= 10 {
        assert(decimal(n) == decimal(n / 10).push(digit_char(n % 10)));
        if n / 10 >= 10 {
            assert(decimal(n / 10) == decimal(n / 100).push(digit_char((n / 10) % 10)));
            assert(n / 100 < 10);
            assert(decimal(n / 100) == seq![digit_char(n / 100)]);
        } else {
            assert(decimal(n / 10) == seq![digit_char(n / 10)]);
        }
    } else {
        assert(decimal(n) == seq![digit_char(n)]);
    }
}

} // verus!
