use vstd::prelude::*;

verus! {

/// The addresses of the game interfaces the library works with (0 where an
/// interface has not been looked up).
#[derive(Clone, Copy)]
pub struct Interfaces {
    pub engine: usize,
    pub client: usize,
    pub trace: usize,
    pub entlist: usize,
    pub debugoverlay: usize,
    pub input: usize,
    pub globals: usize,
    pub surface: usize,
    pub panel: usize,
    pub modelinfo: usize,
    pub prediction: usize,
    pub movehelper: usize,
}

impl Interfaces {
    /// No interface looked up yet.
    pub fn empty() -> (r: Interfaces)
        ensures
            r == (Interfaces {
                engine: 0,
                client: 0,
                trace: 0,
                entlist: 0,
                debugoverlay: 0,
                input: 0,
                globals: 0,
                surface: 0,
                panel: 0,
                modelinfo: 0,
                prediction: 0,
                movehelper: 0,
            }),
    {
        Interfaces {
            engine: 0,
            client: 0,
            trace: 0,
            entlist: 0,
            debugoverlay: 0,
            input: 0,
            globals: 0,
            surface: 0,
            panel: 0,
            modelinfo: 0,
            prediction: 0,
            movehelper: 0,
        }
    }
}

/// Judges what an interface factory answered: the interface's address when
/// the factory reported success (status 0) and a non-null address, else
/// `None` (a failed lookup, which the loader treats as fatal).
pub fn interface_from_factory_result(status: i32, result: usize) -> (r: Option<usize>)
    ensures
        r == (if status == 0 && result != 0 {
            Some(result)
        } else {
            None
        }),
{
    if status == 0 && result != 0 {
        Some(result)
    } else {
        None
    }
}

} // verus!
