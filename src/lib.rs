//! Runtime tables of a WebAssembly engine: slots of function, GC and
//! continuation references, kept either in a fixed pool region ("static") or
//! in a growable buffer ("dynamic"), with bounds-checked access, bulk fill,
//! bulk initialisation, growth under a host limiter, and overlap-safe copy.
pub mod element;
pub mod gc;
pub mod limits;
pub mod table;
pub mod laws;
pub mod slots;
