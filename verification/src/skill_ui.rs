use vstd::prelude::*;

verus! {

broadcast use vstd::seq_lib::group_seq_properties;

/// How the pointer is interacting with a button.
#[derive(Debug, Clone, Copy, PartialEq, Eq, Structural)]
pub enum Interaction {
    Pressed,
    Hovered,
    /// Neither hovered nor pressed.
    Idle,
}

/// The background shade of a skill-tree button.
#[derive(Debug, Clone, Copy, PartialEq, Eq, Structural)]
pub enum ButtonShade {
    Normal,
    Hovered,
    HoveredPressed,
    Pressed,
}

/// The skill tree shows at most this many skills.
pub const SHOWN_SKILLS: usize = 4;

/// The shade of a button: pressed while pressed or while its option is selected and the pointer
/// is away, a lighter pressed shade while a selected button is hovered, hovered, or normal.
pub open spec fn shade_of(interaction: Interaction, selected: bool) -> ButtonShade {
    match interaction {
        Interaction::Pressed => ButtonShade::Pressed,
        Interaction::Hovered => if selected {
            ButtonShade::HoveredPressed
        } else {
            ButtonShade::Hovered
        },
        Interaction::Idle => if selected {
            ButtonShade::Pressed
        } else {
            ButtonShade::Normal
        },
    }
}

/// The shade that a button takes when its interaction changes.
pub fn handle_button_interact(interaction: Interaction, selected: bool) -> (shade: ButtonShade)
    ensures
        shade == shade_of(interaction, selected),
{
    match (interaction, selected) {
        (Interaction::Pressed, _) | (Interaction::Idle, true) => ButtonShade::Pressed,
        (Interaction::Hovered, true) => ButtonShade::HoveredPressed,
        (Interaction::Hovered, false) => ButtonShade::Hovered,
        (Interaction::Idle, false) => ButtonShade::Normal,
    }
}

/// The skills that get a button: the first four available ones, in order.
pub fn spawn_skills<T: Copy>(skills: &Vec<T>) -> (shown: Vec<T>)
    ensures
        shown@ == skills@.take(if skills@.len() < SHOWN_SKILLS { skills@.len() as int } else { SHOWN_SKILLS as int }),
{
    let mut shown: Vec<T> = Vec::new();
    let mut i: usize = 0;
    while i < skills.len() && i < SHOWN_SKILLS
        invariant
            i <= skills@.len(),
            i <= SHOWN_SKILLS,
            shown@ == skills@.take(i as int),
        decreases skills@.len() - i,
    {
        shown.push(skills[i]);
        i = i + 1;
        assert(shown@ =~= skills@.take(i as int));
    }
    shown
}

/// The selected option before a press, when exactly one button holds it.
pub open spec fn previous_selection(selected: Seq<u64>) -> Option<u64> {
    if selected.len() == 1 {
        Some(selected[0])
    } else {
        None
    }
}

/// Whether a button holds the selected option after the presses of one update. Each press
/// takes the selection from the button that alone held it before the update, then gives it to
/// the pressed button; with no press nothing changes.
pub open spec fn selected_after(selected: Seq<u64>, pressed: Seq<u64>, button: u64) -> bool {
    if pressed.len() == 0 {
        selected.contains(button)
    } else if previous_selection(selected) == Some(button) {
        button == pressed.last()
    } else {
        selected.contains(button) || pressed.contains(button)
    }
}

/// What one update of the skill buttons changes.
pub struct SkillSelection {
    /// The buttons that hold the selected option afterwards, each once.
    pub selected: Vec<u64>,
    /// The button whose shade goes back to normal because it lost the selection.
    pub reset: Option<u64>,
}

proof fn lemma_push_fresh(s: Seq<u64>, x: u64)
    requires
        s.no_duplicates(),
        !s.contains(x),
    ensures
        s.push(x).no_duplicates(),
{
    assert forall|i: int, j: int| 0 <= i < j < s.push(x).len() implies s.push(x)[i] != s.push(x)[j] by {
        if j == s.len() {
            assert(s[i] == s.push(x)[i]);
        }
    }
}

fn contains_id(ids: &Vec<u64>, id: u64) -> (found: bool)
    ensures
        found == ids@.contains(id),
{
    let mut i: usize = 0;
    while i < ids.len()
        invariant
            i <= ids@.len(),
            forall|j: int| 0 <= j < i ==> ids@[j] != id,
        decreases ids@.len() - i,
    {
        if ids[i] == id {
            assert(ids@[i as int] == id);
            return true;
        }
        i = i + 1;
    }
    false
}

/// Moves the selected option to the pressed buttons. `selected` lists the buttons that hold it,
/// each once; `pressed` the buttons pressed in this update, in order.
pub fn update_selected_skill_button(selected: &Vec<u64>, pressed: &Vec<u64>) -> (change: SkillSelection)
    requires
        selected@.no_duplicates(),
    ensures
        change.selected@.no_duplicates(),
        forall|b: u64| #[trigger] change.selected@.contains(b) == selected_after(selected@, pressed@, b),
        change.reset == (if pressed@.len() > 0 { previous_selection(selected@) } else { None }),
{
    let previous: Option<u64> = if selected.len() == 1 {
        Some(selected[0])
    } else {
        None
    };
    if pressed.len() == 0 {
        let mut same: Vec<u64> = Vec::new();
        let mut i: usize = 0;
        while i < selected.len()
            invariant
                i <= selected@.len(),
                same@ == selected@.take(i as int),
            decreases selected@.len() - i,
        {
            same.push(selected[i]);
            i = i + 1;
            assert(same@ =~= selected@.take(i as int));
        }
        assert(same@ =~= selected@);
        return SkillSelection { selected: same, reset: None };
    }
    let last = pressed[pressed.len() - 1];
    let mut result: Vec<u64> = Vec::new();
    let mut i: usize = 0;
    while i < selected.len()
        invariant
            i <= selected@.len(),
            selected@.no_duplicates(),
            previous == previous_selection(selected@),
            result@.no_duplicates(),
            forall|b: u64| #[trigger] result@.contains(b) == (selected@.take(i as int).contains(b) && previous != Some(b)),
        decreases selected@.len() - i,
    {
        let id = selected[i];
        proof {
            assert(selected@.take(i + 1) =~= selected@.take(i as int).push(id));
            if selected@.take(i as int).contains(id) {
                let k = choose|k: int| 0 <= k < i && #[trigger] selected@.take(i as int)[k] == id;
                assert(selected@[k] == selected@[i as int]);
            }
        }
        if previous != Some(id) {
            proof {
                lemma_push_fresh(result@, id);
            }
            result.push(id);
        }
        i = i + 1;
    }
    assert(selected@.take(selected@.len() as int) =~= selected@);
    let mut k: usize = 0;
    while k < pressed.len()
        invariant
            k <= pressed@.len(),
            pressed@.len() > 0,
            last == pressed@.last(),
            previous == previous_selection(selected@),
            result@.no_duplicates(),
            forall|b: u64| #[trigger] result@.contains(b) == ((selected@.contains(b) || pressed@.take(k as int).contains(b)) && previous != Some(b)),
        decreases pressed@.len() - k,
    {
        let id = pressed[k];
        proof {
            assert(pressed@.take(k + 1) =~= pressed@.take(k as int).push(id));
        }
        if previous != Some(id) && !contains_id(&result, id) {
            proof {
                lemma_push_fresh(result@, id);
            }
            result.push(id);
        }
        k = k + 1;
    }
    assert(pressed@.take(pressed@.len() as int) =~= pressed@);
    let reset = previous;
    match previous {
        Some(q) => {
            if q == last {
                proof {
                    lemma_push_fresh(result@, q);
                }
                result.push(q);
            }
        },
        None => {},
    }
    proof {
        assert forall|b: u64| #[trigger] result@.contains(b) == selected_after(selected@, pressed@, b) by {
            if previous == Some(b) && b == last {
                assert(result@[result@.len() - 1] == b);
            }
        }
    }
    SkillSelection { selected: result, reset }
}

/// The choices that the choose buttons send: one per press of the selected skill, and none
/// unless exactly one button holds the selection.
pub fn skill_tree_menu_action<T: Copy>(selected: &Vec<T>, presses: usize) -> (chosen: Vec<T>)
    ensures
        chosen@ == (if selected@.len() == 1 { Seq::new(presses as nat, |i: int| selected@[0]) } else { Seq::empty() }),
{
    let mut chosen: Vec<T> = Vec::new();
    if selected.len() != 1 {
        return chosen;
    }
    let skill = selected[0];
    let mut i: usize = 0;
    while i < presses
        invariant
            i <= presses,
            selected@.len() == 1,
            skill == selected@[0],
            chosen@ == Seq::new(i as nat, |j: int| selected@[0]),
        decreases presses - i,
    {
        chosen.push(skill);
        i = i + 1;
        assert(chosen@ =~= Seq::new(i as nat, |j: int| selected@[0]));
    }
    chosen
}

} // verus!
