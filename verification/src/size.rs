//! The length of a bounded source.

use vstd::prelude::*;
use std::borrow::Cow;
use crate::error::Error;

verus! {

/// A source that can say how many bytes it holds in all.
pub trait Size {
    /// The number of bytes of the source, where it is fixed for as long as
    /// the source is borrowed; `None` for a source such as a file, whose
    /// length is asked for outside.
    open spec fn fixed_size(&self) -> Option<nat> {
        None
    }

    /// The number of bytes that the source holds.
    fn size(&self) -> (res: Result<u64, Error>)
        ensures
            self.fixed_size() matches Some(n) ==> (res matches Ok(s) && s == n),
    ;
}

impl Size for [u8] {
    open spec fn fixed_size(&self) -> Option<nat> {
        Some(self@.len())
    }

    fn size(&self) -> (res: Result<u64, Error>) {
        Ok(self.len() as u64)
    }
}

impl<const N: usize> Size for [u8; N] {
    open spec fn fixed_size(&self) -> Option<nat> {
        Some(self@.len())
    }

    fn size(&self) -> (res: Result<u64, Error>) {
        Ok(self.as_slice().len() as u64)
    }
}

impl Size for Vec<u8> {
    open spec fn fixed_size(&self) -> Option<nat> {
        Some(self@.len())
    }

    fn size(&self) -> (res: Result<u64, Error>) {
        Ok(self.len() as u64)
    }
}

impl Size for Cow<'_, [u8]> {
    open spec fn fixed_size(&self) -> Option<nat> {
        Some(self@.len())
    }

    fn size(&self) -> (res: Result<u64, Error>) {
        match self {
            Cow::Borrowed(bytes) => Ok(bytes.len() as u64),
            Cow::Owned(bytes) => Ok(bytes.len() as u64),
        }
    }
}

impl<T: Size + ?Sized> Size for &T {
    open spec fn fixed_size(&self) -> Option<nat> {
        (**self).fixed_size()
    }

    fn size(&self) -> (res: Result<u64, Error>) {
        (**self).size()
    }
}

impl<T: Size + ?Sized> Size for Box<T> {
    open spec fn fixed_size(&self) -> Option<nat> {
        (**self).fixed_size()
    }

    fn size(&self) -> (res: Result<u64, Error>) {
        (**self).size()
    }
}

impl<T: Size + ?Sized> Size for std::sync::Arc<T> {
    open spec fn fixed_size(&self) -> Option<nat> {
        (**self).fixed_size()
    }

    fn size(&self) -> (res: Result<u64, Error>) {
        (**self).size()
    }
}

impl<T: Size + ?Sized> Size for std::rc::Rc<T> {
    open spec fn fixed_size(&self) -> Option<nat> {
        (**self).fixed_size()
    }

    fn size(&self) -> (res: Result<u64, Error>) {
        (**self).size()
    }
}

impl Size for std::io::Empty {
    open spec fn fixed_size(&self) -> Option<nat> {
        Some(0)
    }

    fn size(&self) -> (res: Result<u64, Error>) {
        Ok(0)
    }
}

} // verus!
