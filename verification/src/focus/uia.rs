//! Choosing the control to type into from the editable controls that UI
//! Automation finds under the target window.
use vstd::prelude::*;

verus! {

/// The handles of the found elements that have a native window.
pub open spec fn native_handles(handles: Seq<isize>) -> Seq<isize>
    decreases handles.len(),
{
    if handles.len() == 0 {
        Seq::empty()
    } else if handles.last() == 0 {
        native_handles(handles.drop_last())
    } else {
        native_handles(handles.drop_last()).push(handles.last())
    }
}

/// Keeps the elements that have a native window handle.
pub fn keep_native_handles(handles: &Vec<isize>) -> (r: Vec<isize>)
    ensures
        r@ == native_handles(handles@),
{
    let mut out: Vec<isize> = Vec::new();
    let mut i: usize = 0;
    while i < handles.len()
        invariant
            i <= handles.len(),
            out@ == native_handles(handles@.take(i as int)),
        decreases handles.len() - i,
    {
        assert(handles@.take(i + 1).drop_last() =~= handles@.take(i as int));
        if handles[i] != 0 {
            out.push(handles[i]);
        }
        i = i + 1;
    }
    assert(handles@.take(handles.len() as int) =~= handles@);
    out
}

/// The control chosen among the editable controls: the current focus when
/// it is one of them, else the only one; `None` when there is none or
/// several.
pub open spec fn chosen_control(controls: Seq<isize>, current_focus: isize) -> Option<isize> {
    if controls.len() == 0 {
        None
    } else if current_focus != 0 && controls.contains(current_focus) {
        Some(current_focus)
    } else if controls.len() == 1 {
        Some(controls[0])
    } else {
        None
    }
}

/// Picks the control to type into.
pub fn choose_edit_control(controls: &Vec<isize>, current_focus: isize) -> (r: Option<isize>)
    ensures
        r == chosen_control(controls@, current_focus),
{
    if controls.len() == 0 {
        return None;
    }
    if current_focus != 0 {
        let mut i: usize = 0;
        while i < controls.len()
            invariant
                i <= controls.len(),
                controls@.len() > 0,
                current_focus != 0,
                forall|k: int| 0 <= k < i ==> controls@[k] != current_focus,
            decreases controls.len() - i,
        {
            if controls[i] == current_focus {
                assert(controls@.contains(current_focus));
                return Some(current_focus);
            }
            i = i + 1;
        }
    }
    if controls.len() == 1 {
        Some(controls[0])
    } else {
        None
    }
}

} // verus!
