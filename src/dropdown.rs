use vstd::prelude::*;

verus! {

/// What the pointer is doing to a button.
#[derive(Debug, Clone, Copy, PartialEq, Eq)]
pub enum Interaction {
    Pressed,
    Hovered,
    /// The pointer is neither pressing nor over the button.
    Away,
}

/// Background shade of a dropdown's button or of one of its items.
#[derive(Debug, Clone, Copy, PartialEq, Eq)]
pub enum Shade {
    Normal,
    Hovered,
    Pressed,
    Transparent,
}

/// An entry of a dropdown's list, holding the text it selects.
#[derive(Debug, PartialEq, Eq)]
pub struct DropdownItem(pub String);

/// The item `selected_item` has been chosen in a dropdown.
#[derive(Debug, PartialEq, Eq)]
pub struct DropdownChanged {
    pub selected_item: String,
}

/// A dropdown: whether its list is shown, and the label of its button.
#[derive(Debug, PartialEq, Eq)]
pub struct Dropdown {
    pub open: bool,
    pub label: String,
}

/// Shade of the main button under `interaction`.
pub open spec fn button_shade(interaction: Interaction) -> Shade {
    match interaction {
        Interaction::Pressed => Shade::Pressed,
        Interaction::Hovered => Shade::Hovered,
        Interaction::Away => Shade::Normal,
    }
}

/// Shade of a list item under `interaction`.
pub open spec fn item_shade(interaction: Interaction) -> Shade {
    match interaction {
        Interaction::Pressed => Shade::Pressed,
        Interaction::Hovered => Shade::Hovered,
        Interaction::Away => Shade::Transparent,
    }
}

/// Reacts to an interaction with a main button. A press shows the list of
/// every dropdown that hid it and hides every list that was shown. Returns
/// the button's new shade.
pub fn on_button_interaction(dropdowns: &mut Vec<Dropdown>, interaction: Interaction) -> (r: Shade)
    ensures
        r == button_shade(interaction),
        final(dropdowns)@.len() == old(dropdowns)@.len(),
        forall|i: int|
            0 <= i < old(dropdowns)@.len() ==> {
                &&& (#[trigger] final(dropdowns)@[i]).label == old(dropdowns)@[i].label
                &&& final(dropdowns)@[i].open == if interaction == Interaction::Pressed {
                    !old(dropdowns)@[i].open
                } else {
                    old(dropdowns)@[i].open
                }
            },
{
    match interaction {
        Interaction::Pressed => {
            let mut i: usize = 0;
            while i < dropdowns.len()
                invariant
                    i <= dropdowns@.len(),
                    dropdowns@.len() == old(dropdowns)@.len(),
                    forall|j: int|
                        0 <= j < dropdowns@.len() ==> {
                            &&& (#[trigger] dropdowns@[j]).label == old(dropdowns)@[j].label
                            &&& dropdowns@[j].open == if j < i {
                                !old(dropdowns)@[j].open
                            } else {
                                old(dropdowns)@[j].open
                            }
                        },
                decreases dropdowns@.len() - i,
            {
                let open = dropdowns[i].open;
                dropdowns[i].open = !open;
                i += 1;
            }
            Shade::Pressed
        },
        Interaction::Hovered => Shade::Hovered,
        Interaction::Away => Shade::Normal,
    }
}

/// Reacts to an interaction with the list item `item`. A press selects it:
/// every list is hidden, every button takes the item's text as its label,
/// and the change is announced. Returns the item's new shade.
pub fn on_item_interaction(
    dropdowns: &mut Vec<Dropdown>,
    interaction: Interaction,
    item: &DropdownItem,
) -> (r: (Shade, Option<DropdownChanged>))
    ensures
        r.0 == item_shade(interaction),
        final(dropdowns)@.len() == old(dropdowns)@.len(),
        interaction == Interaction::Pressed ==> {
            &&& r.1 matches Some(c) && c.selected_item@ == item.0@
            &&& forall|i: int|
                0 <= i < old(dropdowns)@.len() ==> {
                    &&& !(#[trigger] final(dropdowns)@[i]).open
                    &&& final(dropdowns)@[i].label@ == item.0@
                }
        },
        interaction != Interaction::Pressed ==> r.1 is None && final(dropdowns)@ == old(
            dropdowns,
        )@,
{
    match interaction {
        Interaction::Pressed => {
            let mut i: usize = 0;
            while i < dropdowns.len()
                invariant
                    i <= dropdowns@.len(),
                    dropdowns@.len() == old(dropdowns)@.len(),
                    forall|j: int|
                        0 <= j < i ==> {
                            &&& !(#[trigger] dropdowns@[j]).open
                            &&& dropdowns@[j].label@ == item.0@
                        },
                decreases dropdowns@.len() - i,
            {
                dropdowns.set(i, Dropdown { open: false, label: item.0.clone() });
                i += 1;
            }
            (Shade::Pressed, Some(DropdownChanged { selected_item: item.0.clone() }))
        },
        Interaction::Hovered => (Shade::Hovered, None),
        Interaction::Away => (Shade::Transparent, None),
    }
}

} // verus!
