//! How tuples are read: field after field, with nothing for the tuple
//! itself. What reading a tuple gives is said by what reading the tuple of
//! its first fields gives, and then its last field.

use crate::de::{Deserialize, DeserializeLaws, Deserializer, Source};
use crate::error::Result;
use crate::ser::Serialize;
use crate::wrappers::next_seq_element;
use vstd::prelude::*;

verus! {

impl<T1: Deserialize> Deserialize for (T1,) {
    open spec fn decoded(before: Source, r: Result<Self>, after: Source) -> bool {
        match r {
            Ok(t) => T1::decoded(before, Ok(t.0), after),
            Err(e) => T1::decoded(before, Err(e), after),
        }
    }

    fn deserialize(de: &mut Deserializer) -> (r: Result<Self>) {
        let mut seq = de.deserialize_tuple(1)?;
        let first: T1 = next_seq_element(&mut seq, 0, 1)?;
        Ok((first,))
    }
}

impl<T1: DeserializeLaws> DeserializeLaws for (T1,) {
    open spec fn reads_back(&self) -> bool {
        self.0.reads_back()
    }

    proof fn lemma_decoded_was_written(before: Source, v: Self, after: Source) {
        T1::lemma_decoded_was_written(before, v.0, after);
    }

    proof fn lemma_written_is_decoded(v: Self, rest: Source, r: Result<Self>, after: Source) {
        match r {
            Ok(t) => T1::lemma_written_is_decoded(v.0, rest, Ok(t.0), after),
            Err(e) => T1::lemma_written_is_decoded(v.0, rest, Err(e), after),
        }
    }

    open spec fn same(&self, other: &Self) -> bool {
        self.0.same(&other.0)
    }

    proof fn lemma_one_reading(a: Self, b: Self, rest_a: Source, rest_b: Source) {
        T1::lemma_one_reading(a.0, b.0, rest_a, rest_b);
    }
}

impl<T1: Deserialize, T2: Deserialize> Deserialize for (T1, T2) {
    open spec fn decoded(before: Source, r: Result<Self>, after: Source) -> bool {
        match r {
            Ok(t) => exists|mid: Source|
                {
                    &&& #[trigger] <(T1,)>::decoded(before, Ok((t.0,)), mid)
                    &&& T2::decoded(mid, Ok(t.1), after)
                },
            Err(e) => {
                ||| <(T1,)>::decoded(before, Err(e), after)
                ||| exists|front: (T1,), mid: Source|
                    {
                        &&& #[trigger] <(T1,)>::decoded(before, Ok(front), mid)
                        &&& T2::decoded(mid, Err(e), after)
                    }
            },
        }
    }

    fn deserialize(de: &mut Deserializer) -> (r: Result<Self>) {
        let ghost before = de@;
        let front = <(T1,)>::deserialize(de)?;
        let ghost mid = de@;
        let last = T2::deserialize(de)?;
        proof {
            let t = (front.0, last);
            assert((t.0,) == front);
            let r: Result<Self> = Ok(t);
            assert(r.unwrap() == t);
        }
        Ok((front.0, last))
    }
}

impl<T1: DeserializeLaws, T2: DeserializeLaws> DeserializeLaws for (T1, T2) {
    open spec fn reads_back(&self) -> bool {
        (self.0,).reads_back() && self.1.reads_back()
    }

    proof fn lemma_decoded_was_written(before: Source, v: Self, after: Source) {
        let front = (v.0,);
        let mid = choose|mid: Source|
            {
                &&& #[trigger] <(T1,)>::decoded(before, Ok(front), mid)
                &&& T2::decoded(mid, Ok(v.1), after)
            };
        <(T1,)>::lemma_decoded_was_written(before, front, mid);
        T2::lemma_decoded_was_written(mid, v.1, after);
        crate::de::lemma_after_after(
            after,
            front.wire().unwrap(),
            v.1.wire().unwrap(),
            front.variant_hints(),
            v.1.variant_hints(),
        );
    }

    proof fn lemma_written_is_decoded(v: Self, rest: Source, r: Result<Self>, after: Source) {
        let front = (v.0,);
        let start = rest.after(v.wire().unwrap(), v.variant_hints());
        let behind = rest.after(v.1.wire().unwrap(), v.1.variant_hints());
        crate::de::lemma_after_after(
            rest,
            front.wire().unwrap(),
            v.1.wire().unwrap(),
            front.variant_hints(),
            v.1.variant_hints(),
        );
        match r {
            Ok(t) => {
                let read = (t.0,);
                let mid = choose|mid: Source|
                    {
                        &&& #[trigger] <(T1,)>::decoded(start, Ok(read), mid)
                        &&& T2::decoded(mid, Ok(t.1), after)
                    };
                <(T1,)>::lemma_written_is_decoded(front, behind, Ok(read), mid);
                T2::lemma_written_is_decoded(v.1, rest, Ok(t.1), after);
            },
            Err(e) => {
                if <(T1,)>::decoded(start, Err(e), after) {
                    <(T1,)>::lemma_written_is_decoded(front, behind, Err(e), after);
                } else {
                    let (read, mid) = choose|read: (T1,), mid: Source|
                        {
                            &&& #[trigger] <(T1,)>::decoded(start, Ok(read), mid)
                            &&& T2::decoded(mid, Err(e), after)
                        };
                    <(T1,)>::lemma_written_is_decoded(front, behind, Ok(read), mid);
                    T2::lemma_written_is_decoded(v.1, rest, Err(e), after);
                }
            },
        }
    }

    open spec fn same(&self, other: &Self) -> bool {
        (self.0,).same(&(other.0,)) && self.1.same(&other.1)
    }

    proof fn lemma_one_reading(a: Self, b: Self, rest_a: Source, rest_b: Source) {
        let front_a = (a.0,);
        let front_b = (b.0,);
        let behind_a = rest_a.after(a.1.wire().unwrap(), a.1.variant_hints());
        let behind_b = rest_b.after(b.1.wire().unwrap(), b.1.variant_hints());
        crate::de::lemma_after_after(
            rest_a,
            front_a.wire().unwrap(),
            a.1.wire().unwrap(),
            front_a.variant_hints(),
            a.1.variant_hints(),
        );
        crate::de::lemma_after_after(
            rest_b,
            front_b.wire().unwrap(),
            b.1.wire().unwrap(),
            front_b.variant_hints(),
            b.1.variant_hints(),
        );
        <(T1,)>::lemma_one_reading(front_a, front_b, behind_a, behind_b);
        T2::lemma_one_reading(a.1, b.1, rest_a, rest_b);
    }
}

impl<T1: Deserialize, T2: Deserialize, T3: Deserialize> Deserialize for (T1, T2, T3) {
    open spec fn decoded(before: Source, r: Result<Self>, after: Source) -> bool {
        match r {
            Ok(t) => exists|mid: Source|
                {
                    &&& #[trigger] <(T1, T2)>::decoded(before, Ok((t.0, t.1)), mid)
                    &&& T3::decoded(mid, Ok(t.2), after)
                },
            Err(e) => {
                ||| <(T1, T2)>::decoded(before, Err(e), after)
                ||| exists|front: (T1, T2), mid: Source|
                    {
                        &&& #[trigger] <(T1, T2)>::decoded(before, Ok(front), mid)
                        &&& T3::decoded(mid, Err(e), after)
                    }
            },
        }
    }

    fn deserialize(de: &mut Deserializer) -> (r: Result<Self>) {
        let ghost before = de@;
        let front = <(T1, T2)>::deserialize(de)?;
        let ghost mid = de@;
        let last = T3::deserialize(de)?;
        proof {
            let t = (front.0, front.1, last);
            assert((t.0, t.1) == front);
            let r: Result<Self> = Ok(t);
            assert(r.unwrap() == t);
        }
        Ok((front.0, front.1, last))
    }
}

impl<
    T1: DeserializeLaws,
    T2: DeserializeLaws,
    T3: DeserializeLaws,
> DeserializeLaws for (T1, T2, T3) {
    open spec fn reads_back(&self) -> bool {
        (self.0, self.1).reads_back() && self.2.reads_back()
    }

    proof fn lemma_decoded_was_written(before: Source, v: Self, after: Source) {
        let front = (v.0, v.1);
        let mid = choose|mid: Source|
            {
                &&& #[trigger] <(T1, T2)>::decoded(before, Ok(front), mid)
                &&& T3::decoded(mid, Ok(v.2), after)
            };
        <(T1, T2)>::lemma_decoded_was_written(before, front, mid);
        T3::lemma_decoded_was_written(mid, v.2, after);
        crate::de::lemma_after_after(
            after,
            front.wire().unwrap(),
            v.2.wire().unwrap(),
            front.variant_hints(),
            v.2.variant_hints(),
        );
    }

    proof fn lemma_written_is_decoded(v: Self, rest: Source, r: Result<Self>, after: Source) {
        let front = (v.0, v.1);
        let start = rest.after(v.wire().unwrap(), v.variant_hints());
        let behind = rest.after(v.2.wire().unwrap(), v.2.variant_hints());
        crate::de::lemma_after_after(
            rest,
            front.wire().unwrap(),
            v.2.wire().unwrap(),
            front.variant_hints(),
            v.2.variant_hints(),
        );
        match r {
            Ok(t) => {
                let read = (t.0, t.1);
                let mid = choose|mid: Source|
                    {
                        &&& #[trigger] <(T1, T2)>::decoded(start, Ok(read), mid)
                        &&& T3::decoded(mid, Ok(t.2), after)
                    };
                <(T1, T2)>::lemma_written_is_decoded(front, behind, Ok(read), mid);
                T3::lemma_written_is_decoded(v.2, rest, Ok(t.2), after);
            },
            Err(e) => {
                if <(T1, T2)>::decoded(start, Err(e), after) {
                    <(T1, T2)>::lemma_written_is_decoded(front, behind, Err(e), after);
                } else {
                    let (read, mid) = choose|read: (T1, T2), mid: Source|
                        {
                            &&& #[trigger] <(T1, T2)>::decoded(start, Ok(read), mid)
                            &&& T3::decoded(mid, Err(e), after)
                        };
                    <(T1, T2)>::lemma_written_is_decoded(front, behind, Ok(read), mid);
                    T3::lemma_written_is_decoded(v.2, rest, Err(e), after);
                }
            },
        }
    }

    open spec fn same(&self, other: &Self) -> bool {
        (self.0, self.1).same(&(other.0, other.1)) && self.2.same(&other.2)
    }

    proof fn lemma_one_reading(a: Self, b: Self, rest_a: Source, rest_b: Source) {
        let front_a = (a.0, a.1);
        let front_b = (b.0, b.1);
        let behind_a = rest_a.after(a.2.wire().unwrap(), a.2.variant_hints());
        let behind_b = rest_b.after(b.2.wire().unwrap(), b.2.variant_hints());
        crate::de::lemma_after_after(
            rest_a,
            front_a.wire().unwrap(),
            a.2.wire().unwrap(),
            front_a.variant_hints(),
            a.2.variant_hints(),
        );
        crate::de::lemma_after_after(
            rest_b,
            front_b.wire().unwrap(),
            b.2.wire().unwrap(),
            front_b.variant_hints(),
            b.2.variant_hints(),
        );
        <(T1, T2)>::lemma_one_reading(front_a, front_b, behind_a, behind_b);
        T3::lemma_one_reading(a.2, b.2, rest_a, rest_b);
    }
}

impl<
    T1: Deserialize,
    T2: Deserialize,
    T3: Deserialize,
    T4: Deserialize,
> Deserialize for (T1, T2, T3, T4) {
    open spec fn decoded(before: Source, r: Result<Self>, after: Source) -> bool {
        match r {
            Ok(t) => exists|mid: Source|
                {
                    &&& #[trigger] <(T1, T2, T3)>::decoded(before, Ok((t.0, t.1, t.2)), mid)
                    &&& T4::decoded(mid, Ok(t.3), after)
                },
            Err(e) => {
                ||| <(T1, T2, T3)>::decoded(before, Err(e), after)
                ||| exists|front: (T1, T2, T3), mid: Source|
                    {
                        &&& #[trigger] <(T1, T2, T3)>::decoded(before, Ok(front), mid)
                        &&& T4::decoded(mid, Err(e), after)
                    }
            },
        }
    }

    fn deserialize(de: &mut Deserializer) -> (r: Result<Self>) {
        let ghost before = de@;
        let front = <(T1, T2, T3)>::deserialize(de)?;
        let ghost mid = de@;
        let last = T4::deserialize(de)?;
        proof {
            let t = (front.0, front.1, front.2, last);
            assert((t.0, t.1, t.2) == front);
            let r: Result<Self> = Ok(t);
            assert(r.unwrap() == t);
        }
        Ok((front.0, front.1, front.2, last))
    }
}

impl<
    T1: DeserializeLaws,
    T2: DeserializeLaws,
    T3: DeserializeLaws,
    T4: DeserializeLaws,
> DeserializeLaws for (T1, T2, T3, T4) {
    open spec fn reads_back(&self) -> bool {
        (self.0, self.1, self.2).reads_back() && self.3.reads_back()
    }

    proof fn lemma_decoded_was_written(before: Source, v: Self, after: Source) {
        let front = (v.0, v.1, v.2);
        let mid = choose|mid: Source|
            {
                &&& #[trigger] <(T1, T2, T3)>::decoded(before, Ok(front), mid)
                &&& T4::decoded(mid, Ok(v.3), after)
            };
        <(T1, T2, T3)>::lemma_decoded_was_written(before, front, mid);
        T4::lemma_decoded_was_written(mid, v.3, after);
        crate::de::lemma_after_after(
            after,
            front.wire().unwrap(),
            v.3.wire().unwrap(),
            front.variant_hints(),
            v.3.variant_hints(),
        );
    }

    proof fn lemma_written_is_decoded(v: Self, rest: Source, r: Result<Self>, after: Source) {
        let front = (v.0, v.1, v.2);
        let start = rest.after(v.wire().unwrap(), v.variant_hints());
        let behind = rest.after(v.3.wire().unwrap(), v.3.variant_hints());
        crate::de::lemma_after_after(
            rest,
            front.wire().unwrap(),
            v.3.wire().unwrap(),
            front.variant_hints(),
            v.3.variant_hints(),
        );
        match r {
            Ok(t) => {
                let read = (t.0, t.1, t.2);
                let mid = choose|mid: Source|
                    {
                        &&& #[trigger] <(T1, T2, T3)>::decoded(start, Ok(read), mid)
                        &&& T4::decoded(mid, Ok(t.3), after)
                    };
                <(T1, T2, T3)>::lemma_written_is_decoded(front, behind, Ok(read), mid);
                T4::lemma_written_is_decoded(v.3, rest, Ok(t.3), after);
            },
            Err(e) => {
                if <(T1, T2, T3)>::decoded(start, Err(e), after) {
                    <(T1, T2, T3)>::lemma_written_is_decoded(front, behind, Err(e), after);
                } else {
                    let (read, mid) = choose|read: (T1, T2, T3), mid: Source|
                        {
                            &&& #[trigger] <(T1, T2, T3)>::decoded(start, Ok(read), mid)
                            &&& T4::decoded(mid, Err(e), after)
                        };
                    <(T1, T2, T3)>::lemma_written_is_decoded(front, behind, Ok(read), mid);
                    T4::lemma_written_is_decoded(v.3, rest, Err(e), after);
                }
            },
        }
    }

    open spec fn same(&self, other: &Self) -> bool {
        (self.0, self.1, self.2).same(&(other.0, other.1, other.2)) && self.3.same(&other.3)
    }

    proof fn lemma_one_reading(a: Self, b: Self, rest_a: Source, rest_b: Source) {
        let front_a = (a.0, a.1, a.2);
        let front_b = (b.0, b.1, b.2);
        let behind_a = rest_a.after(a.3.wire().unwrap(), a.3.variant_hints());
        let behind_b = rest_b.after(b.3.wire().unwrap(), b.3.variant_hints());
        crate::de::lemma_after_after(
            rest_a,
            front_a.wire().unwrap(),
            a.3.wire().unwrap(),
            front_a.variant_hints(),
            a.3.variant_hints(),
        );
        crate::de::lemma_after_after(
            rest_b,
            front_b.wire().unwrap(),
            b.3.wire().unwrap(),
            front_b.variant_hints(),
            b.3.variant_hints(),
        );
        <(T1, T2, T3)>::lemma_one_reading(front_a, front_b, behind_a, behind_b);
        T4::lemma_one_reading(a.3, b.3, rest_a, rest_b);
    }
}

impl<
    T1: Deserialize,
    T2: Deserialize,
    T3: Deserialize,
    T4: Deserialize,
    T5: Deserialize,
> Deserialize for (T1, T2, T3, T4, T5) {
    open spec fn decoded(before: Source, r: Result<Self>, after: Source) -> bool {
        match r {
            Ok(t) => exists|mid: Source|
                {
                    &&& #[trigger] <(T1, T2, T3, T4)>::decoded(
                        before,
                        Ok((t.0, t.1, t.2, t.3)),
                        mid,
                    )
                    &&& T5::decoded(mid, Ok(t.4), after)
                },
            Err(e) => {
                ||| <(T1, T2, T3, T4)>::decoded(before, Err(e), after)
                ||| exists|front: (T1, T2, T3, T4), mid: Source|
                    {
                        &&& #[trigger] <(T1, T2, T3, T4)>::decoded(before, Ok(front), mid)
                        &&& T5::decoded(mid, Err(e), after)
                    }
            },
        }
    }

    fn deserialize(de: &mut Deserializer) -> (r: Result<Self>) {
        let ghost before = de@;
        let front = <(T1, T2, T3, T4)>::deserialize(de)?;
        let ghost mid = de@;
        let last = T5::deserialize(de)?;
        proof {
            let t = (front.0, front.1, front.2, front.3, last);
            assert((t.0, t.1, t.2, t.3) == front);
            let r: Result<Self> = Ok(t);
            assert(r.unwrap() == t);
        }
        Ok((front.0, front.1, front.2, front.3, last))
    }
}

impl<
    T1: DeserializeLaws,
    T2: DeserializeLaws,
    T3: DeserializeLaws,
    T4: DeserializeLaws,
    T5: DeserializeLaws,
> DeserializeLaws for (T1, T2, T3, T4, T5) {
    open spec fn reads_back(&self) -> bool {
        (self.0, self.1, self.2, self.3).reads_back() && self.4.reads_back()
    }

    proof fn lemma_decoded_was_written(before: Source, v: Self, after: Source) {
        let front = (v.0, v.1, v.2, v.3);
        let mid = choose|mid: Source|
            {
                &&& #[trigger] <(T1, T2, T3, T4)>::decoded(before, Ok(front), mid)
                &&& T5::decoded(mid, Ok(v.4), after)
            };
        <(T1, T2, T3, T4)>::lemma_decoded_was_written(before, front, mid);
        T5::lemma_decoded_was_written(mid, v.4, after);
        crate::de::lemma_after_after(
            after,
            front.wire().unwrap(),
            v.4.wire().unwrap(),
            front.variant_hints(),
            v.4.variant_hints(),
        );
    }

    proof fn lemma_written_is_decoded(v: Self, rest: Source, r: Result<Self>, after: Source) {
        let front = (v.0, v.1, v.2, v.3);
        let start = rest.after(v.wire().unwrap(), v.variant_hints());
        let behind = rest.after(v.4.wire().unwrap(), v.4.variant_hints());
        crate::de::lemma_after_after(
            rest,
            front.wire().unwrap(),
            v.4.wire().unwrap(),
            front.variant_hints(),
            v.4.variant_hints(),
        );
        match r {
            Ok(t) => {
                let read = (t.0, t.1, t.2, t.3);
                let mid = choose|mid: Source|
                    {
                        &&& #[trigger] <(T1, T2, T3, T4)>::decoded(start, Ok(read), mid)
                        &&& T5::decoded(mid, Ok(t.4), after)
                    };
                <(T1, T2, T3, T4)>::lemma_written_is_decoded(front, behind, Ok(read), mid);
                T5::lemma_written_is_decoded(v.4, rest, Ok(t.4), after);
            },
            Err(e) => {
                if <(T1, T2, T3, T4)>::decoded(start, Err(e), after) {
                    <(T1, T2, T3, T4)>::lemma_written_is_decoded(front, behind, Err(e), after);
                } else {
                    let (read, mid) = choose|read: (T1, T2, T3, T4), mid: Source|
                        {
                            &&& #[trigger] <(T1, T2, T3, T4)>::decoded(start, Ok(read), mid)
                            &&& T5::decoded(mid, Err(e), after)
                        };
                    <(T1, T2, T3, T4)>::lemma_written_is_decoded(front, behind, Ok(read), mid);
                    T5::lemma_written_is_decoded(v.4, rest, Err(e), after);
                }
            },
        }
    }

    open spec fn same(&self, other: &Self) -> bool {
        (
            self.0,
            self.1,
            self.2,
            self.3,
        ).same(
            &(other.0, other.1, other.2, other.3),
        ) && self.4.same(&other.4)
    }

    proof fn lemma_one_reading(a: Self, b: Self, rest_a: Source, rest_b: Source) {
        let front_a = (a.0, a.1, a.2, a.3);
        let front_b = (b.0, b.1, b.2, b.3);
        let behind_a = rest_a.after(a.4.wire().unwrap(), a.4.variant_hints());
        let behind_b = rest_b.after(b.4.wire().unwrap(), b.4.variant_hints());
        crate::de::lemma_after_after(
            rest_a,
            front_a.wire().unwrap(),
            a.4.wire().unwrap(),
            front_a.variant_hints(),
            a.4.variant_hints(),
        );
        crate::de::lemma_after_after(
            rest_b,
            front_b.wire().unwrap(),
            b.4.wire().unwrap(),
            front_b.variant_hints(),
            b.4.variant_hints(),
        );
        <(T1, T2, T3, T4)>::lemma_one_reading(front_a, front_b, behind_a, behind_b);
        T5::lemma_one_reading(a.4, b.4, rest_a, rest_b);
    }
}

impl<
    T1: Deserialize,
    T2: Deserialize,
    T3: Deserialize,
    T4: Deserialize,
    T5: Deserialize,
    T6: Deserialize,
> Deserialize for (T1, T2, T3, T4, T5, T6) {
    open spec fn decoded(before: Source, r: Result<Self>, after: Source) -> bool {
        match r {
            Ok(t) => exists|mid: Source|
                {
                    &&& #[trigger] <(T1, T2, T3, T4, T5)>::decoded(
                        before,
                        Ok((t.0, t.1, t.2, t.3, t.4)),
                        mid,
                    )
                    &&& T6::decoded(mid, Ok(t.5), after)
                },
            Err(e) => {
                ||| <(T1, T2, T3, T4, T5)>::decoded(before, Err(e), after)
                ||| exists|front: (T1, T2, T3, T4, T5), mid: Source|
                    {
                        &&& #[trigger] <(T1, T2, T3, T4, T5)>::decoded(before, Ok(front), mid)
                        &&& T6::decoded(mid, Err(e), after)
                    }
            },
        }
    }

    fn deserialize(de: &mut Deserializer) -> (r: Result<Self>) {
        let ghost before = de@;
        let front = <(T1, T2, T3, T4, T5)>::deserialize(de)?;
        let ghost mid = de@;
        let last = T6::deserialize(de)?;
        proof {
            let t = (front.0, front.1, front.2, front.3, front.4, last);
            assert((t.0, t.1, t.2, t.3, t.4) == front);
            let r: Result<Self> = Ok(t);
            assert(r.unwrap() == t);
        }
        Ok((front.0, front.1, front.2, front.3, front.4, last))
    }
}

impl<
    T1: DeserializeLaws,
    T2: DeserializeLaws,
    T3: DeserializeLaws,
    T4: DeserializeLaws,
    T5: DeserializeLaws,
    T6: DeserializeLaws,
> DeserializeLaws for (T1, T2, T3, T4, T5, T6) {
    open spec fn reads_back(&self) -> bool {
        (self.0, self.1, self.2, self.3, self.4).reads_back() && self.5.reads_back()
    }

    proof fn lemma_decoded_was_written(before: Source, v: Self, after: Source) {
        let front = (v.0, v.1, v.2, v.3, v.4);
        let mid = choose|mid: Source|
            {
                &&& #[trigger] <(T1, T2, T3, T4, T5)>::decoded(before, Ok(front), mid)
                &&& T6::decoded(mid, Ok(v.5), after)
            };
        <(T1, T2, T3, T4, T5)>::lemma_decoded_was_written(before, front, mid);
        T6::lemma_decoded_was_written(mid, v.5, after);
        crate::de::lemma_after_after(
            after,
            front.wire().unwrap(),
            v.5.wire().unwrap(),
            front.variant_hints(),
            v.5.variant_hints(),
        );
    }

    proof fn lemma_written_is_decoded(v: Self, rest: Source, r: Result<Self>, after: Source) {
        let front = (v.0, v.1, v.2, v.3, v.4);
        let start = rest.after(v.wire().unwrap(), v.variant_hints());
        let behind = rest.after(v.5.wire().unwrap(), v.5.variant_hints());
        crate::de::lemma_after_after(
            rest,
            front.wire().unwrap(),
            v.5.wire().unwrap(),
            front.variant_hints(),
            v.5.variant_hints(),
        );
        match r {
            Ok(t) => {
                let read = (t.0, t.1, t.2, t.3, t.4);
                let mid = choose|mid: Source|
                    {
                        &&& #[trigger] <(T1, T2, T3, T4, T5)>::decoded(start, Ok(read), mid)
                        &&& T6::decoded(mid, Ok(t.5), after)
                    };
                <(T1, T2, T3, T4, T5)>::lemma_written_is_decoded(front, behind, Ok(read), mid);
                T6::lemma_written_is_decoded(v.5, rest, Ok(t.5), after);
            },
            Err(e) => {
                if <(T1, T2, T3, T4, T5)>::decoded(start, Err(e), after) {
                    <(T1, T2, T3, T4, T5)>::lemma_written_is_decoded(front, behind, Err(e), after);
                } else {
                    let (read, mid) = choose|read: (T1, T2, T3, T4, T5), mid: Source|
                        {
                            &&& #[trigger] <(T1, T2, T3, T4, T5)>::decoded(start, Ok(read), mid)
                            &&& T6::decoded(mid, Err(e), after)
                        };
                    <(T1, T2, T3, T4, T5)>::lemma_written_is_decoded(front, behind, Ok(read), mid);
                    T6::lemma_written_is_decoded(v.5, rest, Err(e), after);
                }
            },
        }
    }

    open spec fn same(&self, other: &Self) -> bool {
        (
            self.0,
            self.1,
            self.2,
            self.3,
            self.4,
        ).same(
            &(other.0, other.1, other.2, other.3, other.4),
        ) && self.5.same(&other.5)
    }

    proof fn lemma_one_reading(a: Self, b: Self, rest_a: Source, rest_b: Source) {
        let front_a = (a.0, a.1, a.2, a.3, a.4);
        let front_b = (b.0, b.1, b.2, b.3, b.4);
        let behind_a = rest_a.after(a.5.wire().unwrap(), a.5.variant_hints());
        let behind_b = rest_b.after(b.5.wire().unwrap(), b.5.variant_hints());
        crate::de::lemma_after_after(
            rest_a,
            front_a.wire().unwrap(),
            a.5.wire().unwrap(),
            front_a.variant_hints(),
            a.5.variant_hints(),
        );
        crate::de::lemma_after_after(
            rest_b,
            front_b.wire().unwrap(),
            b.5.wire().unwrap(),
            front_b.variant_hints(),
            b.5.variant_hints(),
        );
        <(T1, T2, T3, T4, T5)>::lemma_one_reading(front_a, front_b, behind_a, behind_b);
        T6::lemma_one_reading(a.5, b.5, rest_a, rest_b);
    }
}

impl<
    T1: Deserialize,
    T2: Deserialize,
    T3: Deserialize,
    T4: Deserialize,
    T5: Deserialize,
    T6: Deserialize,
    T7: Deserialize,
> Deserialize for (T1, T2, T3, T4, T5, T6, T7) {
    open spec fn decoded(before: Source, r: Result<Self>, after: Source) -> bool {
        match r {
            Ok(t) => exists|mid: Source|
                {
                    &&& #[trigger] <(T1, T2, T3, T4, T5, T6)>::decoded(
                        before,
                        Ok((t.0, t.1, t.2, t.3, t.4, t.5)),
                        mid,
                    )
                    &&& T7::decoded(mid, Ok(t.6), after)
                },
            Err(e) => {
                ||| <(T1, T2, T3, T4, T5, T6)>::decoded(before, Err(e), after)
                ||| exists|front: (T1, T2, T3, T4, T5, T6), mid: Source|
                    {
                        &&& #[trigger] <(T1, T2, T3, T4, T5, T6)>::decoded(before, Ok(front), mid)
                        &&& T7::decoded(mid, Err(e), after)
                    }
            },
        }
    }

    fn deserialize(de: &mut Deserializer) -> (r: Result<Self>) {
        let ghost before = de@;
        let front = <(T1, T2, T3, T4, T5, T6)>::deserialize(de)?;
        let ghost mid = de@;
        let last = T7::deserialize(de)?;
        proof {
            let t = (front.0, front.1, front.2, front.3, front.4, front.5, last);
            assert((t.0, t.1, t.2, t.3, t.4, t.5) == front);
            let r: Result<Self> = Ok(t);
            assert(r.unwrap() == t);
        }
        Ok((front.0, front.1, front.2, front.3, front.4, front.5, last))
    }
}

impl<
    T1: DeserializeLaws,
    T2: DeserializeLaws,
    T3: DeserializeLaws,
    T4: DeserializeLaws,
    T5: DeserializeLaws,
    T6: DeserializeLaws,
    T7: DeserializeLaws,
> DeserializeLaws for (T1, T2, T3, T4, T5, T6, T7) {
    open spec fn reads_back(&self) -> bool {
        (self.0, self.1, self.2, self.3, self.4, self.5).reads_back() && self.6.reads_back()
    }

    proof fn lemma_decoded_was_written(before: Source, v: Self, after: Source) {
        let front = (v.0, v.1, v.2, v.3, v.4, v.5);
        let mid = choose|mid: Source|
            {
                &&& #[trigger] <(T1, T2, T3, T4, T5, T6)>::decoded(before, Ok(front), mid)
                &&& T7::decoded(mid, Ok(v.6), after)
            };
        <(T1, T2, T3, T4, T5, T6)>::lemma_decoded_was_written(before, front, mid);
        T7::lemma_decoded_was_written(mid, v.6, after);
        crate::de::lemma_after_after(
            after,
            front.wire().unwrap(),
            v.6.wire().unwrap(),
            front.variant_hints(),
            v.6.variant_hints(),
        );
    }

    proof fn lemma_written_is_decoded(v: Self, rest: Source, r: Result<Self>, after: Source) {
        let front = (v.0, v.1, v.2, v.3, v.4, v.5);
        let start = rest.after(v.wire().unwrap(), v.variant_hints());
        let behind = rest.after(v.6.wire().unwrap(), v.6.variant_hints());
        crate::de::lemma_after_after(
            rest,
            front.wire().unwrap(),
            v.6.wire().unwrap(),
            front.variant_hints(),
            v.6.variant_hints(),
        );
        match r {
            Ok(t) => {
                let read = (t.0, t.1, t.2, t.3, t.4, t.5);
                let mid = choose|mid: Source|
                    {
                        &&& #[trigger] <(T1, T2, T3, T4, T5, T6)>::decoded(start, Ok(read), mid)
                        &&& T7::decoded(mid, Ok(t.6), after)
                    };
                <(T1, T2, T3, T4, T5, T6)>::lemma_written_is_decoded(front, behind, Ok(read), mid);
                T7::lemma_written_is_decoded(v.6, rest, Ok(t.6), after);
            },
            Err(e) => {
                if <(T1, T2, T3, T4, T5, T6)>::decoded(start, Err(e), after) {
                    <(T1, T2, T3, T4, T5, T6)>::lemma_written_is_decoded(
                        front,
                        behind,
                        Err(e),
                        after,
                    );
                } else {
                    let (read, mid) = choose|read: (T1, T2, T3, T4, T5, T6), mid: Source|
                        {
                            &&& #[trigger] <(T1, T2, T3, T4, T5, T6)>::decoded(start, Ok(read), mid)
                            &&& T7::decoded(mid, Err(e), after)
                        };
                    <(T1, T2, T3, T4, T5, T6)>::lemma_written_is_decoded(
                        front,
                        behind,
                        Ok(read),
                        mid,
                    );
                    T7::lemma_written_is_decoded(v.6, rest, Err(e), after);
                }
            },
        }
    }

    open spec fn same(&self, other: &Self) -> bool {
        (
            self.0,
            self.1,
            self.2,
            self.3,
            self.4,
            self.5,
        ).same(
            &(other.0, other.1, other.2, other.3, other.4, other.5),
        ) && self.6.same(&other.6)
    }

    proof fn lemma_one_reading(a: Self, b: Self, rest_a: Source, rest_b: Source) {
        let front_a = (a.0, a.1, a.2, a.3, a.4, a.5);
        let front_b = (b.0, b.1, b.2, b.3, b.4, b.5);
        let behind_a = rest_a.after(a.6.wire().unwrap(), a.6.variant_hints());
        let behind_b = rest_b.after(b.6.wire().unwrap(), b.6.variant_hints());
        crate::de::lemma_after_after(
            rest_a,
            front_a.wire().unwrap(),
            a.6.wire().unwrap(),
            front_a.variant_hints(),
            a.6.variant_hints(),
        );
        crate::de::lemma_after_after(
            rest_b,
            front_b.wire().unwrap(),
            b.6.wire().unwrap(),
            front_b.variant_hints(),
            b.6.variant_hints(),
        );
        <(T1, T2, T3, T4, T5, T6)>::lemma_one_reading(front_a, front_b, behind_a, behind_b);
        T7::lemma_one_reading(a.6, b.6, rest_a, rest_b);
    }
}

impl<
    T1: Deserialize,
    T2: Deserialize,
    T3: Deserialize,
    T4: Deserialize,
    T5: Deserialize,
    T6: Deserialize,
    T7: Deserialize,
    T8: Deserialize,
> Deserialize for (T1, T2, T3, T4, T5, T6, T7, T8) {
    open spec fn decoded(before: Source, r: Result<Self>, after: Source) -> bool {
        match r {
            Ok(t) => exists|mid: Source|
                {
                    &&& #[trigger] <(T1, T2, T3, T4, T5, T6, T7)>::decoded(
                        before,
                        Ok((t.0, t.1, t.2, t.3, t.4, t.5, t.6)),
                        mid,
                    )
                    &&& T8::decoded(mid, Ok(t.7), after)
                },
            Err(e) => {
                ||| <(T1, T2, T3, T4, T5, T6, T7)>::decoded(before, Err(e), after)
                ||| exists|front: (T1, T2, T3, T4, T5, T6, T7), mid: Source|
                    {
                        &&& #[trigger] <(T1, T2, T3, T4, T5, T6, T7)>::decoded(
                            before,
                            Ok(front),
                            mid,
                        )
                        &&& T8::decoded(mid, Err(e), after)
                    }
            },
        }
    }

    fn deserialize(de: &mut Deserializer) -> (r: Result<Self>) {
        let ghost before = de@;
        let front = <(T1, T2, T3, T4, T5, T6, T7)>::deserialize(de)?;
        let ghost mid = de@;
        let last = T8::deserialize(de)?;
        proof {
            let t = (front.0, front.1, front.2, front.3, front.4, front.5, front.6, last);
            assert((t.0, t.1, t.2, t.3, t.4, t.5, t.6) == front);
            let r: Result<Self> = Ok(t);
            assert(r.unwrap() == t);
        }
        Ok((front.0, front.1, front.2, front.3, front.4, front.5, front.6, last))
    }
}

impl<
    T1: DeserializeLaws,
    T2: DeserializeLaws,
    T3: DeserializeLaws,
    T4: DeserializeLaws,
    T5: DeserializeLaws,
    T6: DeserializeLaws,
    T7: DeserializeLaws,
    T8: DeserializeLaws,
> DeserializeLaws for (T1, T2, T3, T4, T5, T6, T7, T8) {
    open spec fn reads_back(&self) -> bool {
        (self.0, self.1, self.2, self.3, self.4, self.5, self.6).reads_back() && self.7.reads_back()
    }

    proof fn lemma_decoded_was_written(before: Source, v: Self, after: Source) {
        let front = (v.0, v.1, v.2, v.3, v.4, v.5, v.6);
        let mid = choose|mid: Source|
            {
                &&& #[trigger] <(T1, T2, T3, T4, T5, T6, T7)>::decoded(before, Ok(front), mid)
                &&& T8::decoded(mid, Ok(v.7), after)
            };
        <(T1, T2, T3, T4, T5, T6, T7)>::lemma_decoded_was_written(before, front, mid);
        T8::lemma_decoded_was_written(mid, v.7, after);
        crate::de::lemma_after_after(
            after,
            front.wire().unwrap(),
            v.7.wire().unwrap(),
            front.variant_hints(),
            v.7.variant_hints(),
        );
    }

    proof fn lemma_written_is_decoded(v: Self, rest: Source, r: Result<Self>, after: Source) {
        let front = (v.0, v.1, v.2, v.3, v.4, v.5, v.6);
        let start = rest.after(v.wire().unwrap(), v.variant_hints());
        let behind = rest.after(v.7.wire().unwrap(), v.7.variant_hints());
        crate::de::lemma_after_after(
            rest,
            front.wire().unwrap(),
            v.7.wire().unwrap(),
            front.variant_hints(),
            v.7.variant_hints(),
        );
        match r {
            Ok(t) => {
                let read = (t.0, t.1, t.2, t.3, t.4, t.5, t.6);
                let mid = choose|mid: Source|
                    {
                        &&& #[trigger] <(T1, T2, T3, T4, T5, T6, T7)>::decoded(start, Ok(read), mid)
                        &&& T8::decoded(mid, Ok(t.7), after)
                    };
                <(T1, T2, T3, T4, T5, T6, T7)>::lemma_written_is_decoded(
                    front,
                    behind,
                    Ok(read),
                    mid,
                );
                T8::lemma_written_is_decoded(v.7, rest, Ok(t.7), after);
            },
            Err(e) => {
                if <(T1, T2, T3, T4, T5, T6, T7)>::decoded(start, Err(e), after) {
                    <(T1, T2, T3, T4, T5, T6, T7)>::lemma_written_is_decoded(
                        front,
                        behind,
                        Err(e),
                        after,
                    );
                } else {
                    let (read, mid) = choose|read: (T1, T2, T3, T4, T5, T6, T7), mid: Source|
                        {
                            &&& #[trigger] <(T1, T2, T3, T4, T5, T6, T7)>::decoded(
                                start,
                                Ok(read),
                                mid,
                            )
                            &&& T8::decoded(mid, Err(e), after)
                        };
                    <(T1, T2, T3, T4, T5, T6, T7)>::lemma_written_is_decoded(
                        front,
                        behind,
                        Ok(read),
                        mid,
                    );
                    T8::lemma_written_is_decoded(v.7, rest, Err(e), after);
                }
            },
        }
    }

    open spec fn same(&self, other: &Self) -> bool {
        (
            self.0,
            self.1,
            self.2,
            self.3,
            self.4,
            self.5,
            self.6,
        ).same(
            &(other.0, other.1, other.2, other.3, other.4, other.5, other.6),
        ) && self.7.same(&other.7)
    }

    proof fn lemma_one_reading(a: Self, b: Self, rest_a: Source, rest_b: Source) {
        let front_a = (a.0, a.1, a.2, a.3, a.4, a.5, a.6);
        let front_b = (b.0, b.1, b.2, b.3, b.4, b.5, b.6);
        let behind_a = rest_a.after(a.7.wire().unwrap(), a.7.variant_hints());
        let behind_b = rest_b.after(b.7.wire().unwrap(), b.7.variant_hints());
        crate::de::lemma_after_after(
            rest_a,
            front_a.wire().unwrap(),
            a.7.wire().unwrap(),
            front_a.variant_hints(),
            a.7.variant_hints(),
        );
        crate::de::lemma_after_after(
            rest_b,
            front_b.wire().unwrap(),
            b.7.wire().unwrap(),
            front_b.variant_hints(),
            b.7.variant_hints(),
        );
        <(T1, T2, T3, T4, T5, T6, T7)>::lemma_one_reading(front_a, front_b, behind_a, behind_b);
        T8::lemma_one_reading(a.7, b.7, rest_a, rest_b);
    }
}

impl<
    T1: Deserialize,
    T2: Deserialize,
    T3: Deserialize,
    T4: Deserialize,
    T5: Deserialize,
    T6: Deserialize,
    T7: Deserialize,
    T8: Deserialize,
    T9: Deserialize,
> Deserialize for (T1, T2, T3, T4, T5, T6, T7, T8, T9) {
    open spec fn decoded(before: Source, r: Result<Self>, after: Source) -> bool {
        match r {
            Ok(t) => exists|mid: Source|
                {
                    &&& #[trigger] <(T1, T2, T3, T4, T5, T6, T7, T8)>::decoded(
                        before,
                        Ok((t.0, t.1, t.2, t.3, t.4, t.5, t.6, t.7)),
                        mid,
                    )
                    &&& T9::decoded(mid, Ok(t.8), after)
                },
            Err(e) => {
                ||| <(T1, T2, T3, T4, T5, T6, T7, T8)>::decoded(before, Err(e), after)
                ||| exists|front: (T1, T2, T3, T4, T5, T6, T7, T8), mid: Source|
                    {
                        &&& #[trigger] <(T1, T2, T3, T4, T5, T6, T7, T8)>::decoded(
                            before,
                            Ok(front),
                            mid,
                        )
                        &&& T9::decoded(mid, Err(e), after)
                    }
            },
        }
    }

    fn deserialize(de: &mut Deserializer) -> (r: Result<Self>) {
        let ghost before = de@;
        let front = <(T1, T2, T3, T4, T5, T6, T7, T8)>::deserialize(de)?;
        let ghost mid = de@;
        let last = T9::deserialize(de)?;
        proof {
            let t = (front.0, front.1, front.2, front.3, front.4, front.5, front.6, front.7, last);
            assert((t.0, t.1, t.2, t.3, t.4, t.5, t.6, t.7) == front);
            let r: Result<Self> = Ok(t);
            assert(r.unwrap() == t);
        }
        Ok((front.0, front.1, front.2, front.3, front.4, front.5, front.6, front.7, last))
    }
}

impl<
    T1: DeserializeLaws,
    T2: DeserializeLaws,
    T3: DeserializeLaws,
    T4: DeserializeLaws,
    T5: DeserializeLaws,
    T6: DeserializeLaws,
    T7: DeserializeLaws,
    T8: DeserializeLaws,
    T9: DeserializeLaws,
> DeserializeLaws for (T1, T2, T3, T4, T5, T6, T7, T8, T9) {
    open spec fn reads_back(&self) -> bool {
        (
            self.0,
            self.1,
            self.2,
            self.3,
            self.4,
            self.5,
            self.6,
            self.7,
        ).reads_back() && self.8.reads_back()
    }

    proof fn lemma_decoded_was_written(before: Source, v: Self, after: Source) {
        let front = (v.0, v.1, v.2, v.3, v.4, v.5, v.6, v.7);
        let mid = choose|mid: Source|
            {
                &&& #[trigger] <(T1, T2, T3, T4, T5, T6, T7, T8)>::decoded(before, Ok(front), mid)
                &&& T9::decoded(mid, Ok(v.8), after)
            };
        <(T1, T2, T3, T4, T5, T6, T7, T8)>::lemma_decoded_was_written(before, front, mid);
        T9::lemma_decoded_was_written(mid, v.8, after);
        crate::de::lemma_after_after(
            after,
            front.wire().unwrap(),
            v.8.wire().unwrap(),
            front.variant_hints(),
            v.8.variant_hints(),
        );
    }

    proof fn lemma_written_is_decoded(v: Self, rest: Source, r: Result<Self>, after: Source) {
        let front = (v.0, v.1, v.2, v.3, v.4, v.5, v.6, v.7);
        let start = rest.after(v.wire().unwrap(), v.variant_hints());
        let behind = rest.after(v.8.wire().unwrap(), v.8.variant_hints());
        crate::de::lemma_after_after(
            rest,
            front.wire().unwrap(),
            v.8.wire().unwrap(),
            front.variant_hints(),
            v.8.variant_hints(),
        );
        match r {
            Ok(t) => {
                let read = (t.0, t.1, t.2, t.3, t.4, t.5, t.6, t.7);
                let mid = choose|mid: Source|
                    {
                        &&& #[trigger] <(T1, T2, T3, T4, T5, T6, T7, T8)>::decoded(
                            start,
                            Ok(read),
                            mid,
                        )
                        &&& T9::decoded(mid, Ok(t.8), after)
                    };
                <(T1, T2, T3, T4, T5, T6, T7, T8)>::lemma_written_is_decoded(
                    front,
                    behind,
                    Ok(read),
                    mid,
                );
                T9::lemma_written_is_decoded(v.8, rest, Ok(t.8), after);
            },
            Err(e) => {
                if <(T1, T2, T3, T4, T5, T6, T7, T8)>::decoded(start, Err(e), after) {
                    <(T1, T2, T3, T4, T5, T6, T7, T8)>::lemma_written_is_decoded(
                        front,
                        behind,
                        Err(e),
                        after,
                    );
                } else {
                    let (read, mid) = choose|read: (T1, T2, T3, T4, T5, T6, T7, T8), mid: Source|
                        {
                            &&& #[trigger] <(T1, T2, T3, T4, T5, T6, T7, T8)>::decoded(
                                start,
                                Ok(read),
                                mid,
                            )
                            &&& T9::decoded(mid, Err(e), after)
                        };
                    <(T1, T2, T3, T4, T5, T6, T7, T8)>::lemma_written_is_decoded(
                        front,
                        behind,
                        Ok(read),
                        mid,
                    );
                    T9::lemma_written_is_decoded(v.8, rest, Err(e), after);
                }
            },
        }
    }

    open spec fn same(&self, other: &Self) -> bool {
        (
            self.0,
            self.1,
            self.2,
            self.3,
            self.4,
            self.5,
            self.6,
            self.7,
        ).same(
            &(other.0, other.1, other.2, other.3, other.4, other.5, other.6, other.7),
        ) && self.8.same(&other.8)
    }

    proof fn lemma_one_reading(a: Self, b: Self, rest_a: Source, rest_b: Source) {
        let front_a = (a.0, a.1, a.2, a.3, a.4, a.5, a.6, a.7);
        let front_b = (b.0, b.1, b.2, b.3, b.4, b.5, b.6, b.7);
        let behind_a = rest_a.after(a.8.wire().unwrap(), a.8.variant_hints());
        let behind_b = rest_b.after(b.8.wire().unwrap(), b.8.variant_hints());
        crate::de::lemma_after_after(
            rest_a,
            front_a.wire().unwrap(),
            a.8.wire().unwrap(),
            front_a.variant_hints(),
            a.8.variant_hints(),
        );
        crate::de::lemma_after_after(
            rest_b,
            front_b.wire().unwrap(),
            b.8.wire().unwrap(),
            front_b.variant_hints(),
            b.8.variant_hints(),
        );
        <(T1, T2, T3, T4, T5, T6, T7, T8)>::lemma_one_reading(front_a, front_b, behind_a, behind_b);
        T9::lemma_one_reading(a.8, b.8, rest_a, rest_b);
    }
}

impl<
    T1: Deserialize,
    T2: Deserialize,
    T3: Deserialize,
    T4: Deserialize,
    T5: Deserialize,
    T6: Deserialize,
    T7: Deserialize,
    T8: Deserialize,
    T9: Deserialize,
    T10: Deserialize,
> Deserialize for (T1, T2, T3, T4, T5, T6, T7, T8, T9, T10) {
    open spec fn decoded(before: Source, r: Result<Self>, after: Source) -> bool {
        match r {
            Ok(t) => exists|mid: Source|
                {
                    &&& #[trigger] <(T1, T2, T3, T4, T5, T6, T7, T8, T9)>::decoded(
                        before,
                        Ok((t.0, t.1, t.2, t.3, t.4, t.5, t.6, t.7, t.8)),
                        mid,
                    )
                    &&& T10::decoded(mid, Ok(t.9), after)
                },
            Err(e) => {
                ||| <(T1, T2, T3, T4, T5, T6, T7, T8, T9)>::decoded(before, Err(e), after)
                ||| exists|front: (T1, T2, T3, T4, T5, T6, T7, T8, T9), mid: Source|
                    {
                        &&& #[trigger] <(T1, T2, T3, T4, T5, T6, T7, T8, T9)>::decoded(
                            before,
                            Ok(front),
                            mid,
                        )
                        &&& T10::decoded(mid, Err(e), after)
                    }
            },
        }
    }

    fn deserialize(de: &mut Deserializer) -> (r: Result<Self>) {
        let ghost before = de@;
        let front = <(T1, T2, T3, T4, T5, T6, T7, T8, T9)>::deserialize(de)?;
        let ghost mid = de@;
        let last = T10::deserialize(de)?;
        proof {
            let t = (
                front.0,
                front.1,
                front.2,
                front.3,
                front.4,
                front.5,
                front.6,
                front.7,
                front.8,
                last,
            );
            assert((t.0, t.1, t.2, t.3, t.4, t.5, t.6, t.7, t.8) == front);
            let r: Result<Self> = Ok(t);
            assert(r.unwrap() == t);
        }
        Ok((front.0, front.1, front.2, front.3, front.4, front.5, front.6, front.7, front.8, last))
    }
}

impl<
    T1: DeserializeLaws,
    T2: DeserializeLaws,
    T3: DeserializeLaws,
    T4: DeserializeLaws,
    T5: DeserializeLaws,
    T6: DeserializeLaws,
    T7: DeserializeLaws,
    T8: DeserializeLaws,
    T9: DeserializeLaws,
    T10: DeserializeLaws,
> DeserializeLaws for (T1, T2, T3, T4, T5, T6, T7, T8, T9, T10) {
    open spec fn reads_back(&self) -> bool {
        (
            self.0,
            self.1,
            self.2,
            self.3,
            self.4,
            self.5,
            self.6,
            self.7,
            self.8,
        ).reads_back() && self.9.reads_back()
    }

    proof fn lemma_decoded_was_written(before: Source, v: Self, after: Source) {
        let front = (v.0, v.1, v.2, v.3, v.4, v.5, v.6, v.7, v.8);
        let mid = choose|mid: Source|
            {
                &&& #[trigger] <(T1, T2, T3, T4, T5, T6, T7, T8, T9)>::decoded(
                    before,
                    Ok(front),
                    mid,
                )
                &&& T10::decoded(mid, Ok(v.9), after)
            };
        <(T1, T2, T3, T4, T5, T6, T7, T8, T9)>::lemma_decoded_was_written(before, front, mid);
        T10::lemma_decoded_was_written(mid, v.9, after);
        crate::de::lemma_after_after(
            after,
            front.wire().unwrap(),
            v.9.wire().unwrap(),
            front.variant_hints(),
            v.9.variant_hints(),
        );
    }

    proof fn lemma_written_is_decoded(v: Self, rest: Source, r: Result<Self>, after: Source) {
        let front = (v.0, v.1, v.2, v.3, v.4, v.5, v.6, v.7, v.8);
        let start = rest.after(v.wire().unwrap(), v.variant_hints());
        let behind = rest.after(v.9.wire().unwrap(), v.9.variant_hints());
        crate::de::lemma_after_after(
            rest,
            front.wire().unwrap(),
            v.9.wire().unwrap(),
            front.variant_hints(),
            v.9.variant_hints(),
        );
        match r {
            Ok(t) => {
                let read = (t.0, t.1, t.2, t.3, t.4, t.5, t.6, t.7, t.8);
                let mid = choose|mid: Source|
                    {
                        &&& #[trigger] <(T1, T2, T3, T4, T5, T6, T7, T8, T9)>::decoded(
                            start,
                            Ok(read),
                            mid,
                        )
                        &&& T10::decoded(mid, Ok(t.9), after)
                    };
                <(T1, T2, T3, T4, T5, T6, T7, T8, T9)>::lemma_written_is_decoded(
                    front,
                    behind,
                    Ok(read),
                    mid,
                );
                T10::lemma_written_is_decoded(v.9, rest, Ok(t.9), after);
            },
            Err(e) => {
                if <(T1, T2, T3, T4, T5, T6, T7, T8, T9)>::decoded(start, Err(e), after) {
                    <(T1, T2, T3, T4, T5, T6, T7, T8, T9)>::lemma_written_is_decoded(
                        front,
                        behind,
                        Err(e),
                        after,
                    );
                } else {
                    let (read, mid) = choose|
                        read: (T1, T2, T3, T4, T5, T6, T7, T8, T9),
                        mid: Source,
                    |
                        {
                            &&& #[trigger] <(T1, T2, T3, T4, T5, T6, T7, T8, T9)>::decoded(
                                start,
                                Ok(read),
                                mid,
                            )
                            &&& T10::decoded(mid, Err(e), after)
                        };
                    <(T1, T2, T3, T4, T5, T6, T7, T8, T9)>::lemma_written_is_decoded(
                        front,
                        behind,
                        Ok(read),
                        mid,
                    );
                    T10::lemma_written_is_decoded(v.9, rest, Err(e), after);
                }
            },
        }
    }

    open spec fn same(&self, other: &Self) -> bool {
        (
            self.0,
            self.1,
            self.2,
            self.3,
            self.4,
            self.5,
            self.6,
            self.7,
            self.8,
        ).same(
            &(other.0, other.1, other.2, other.3, other.4, other.5, other.6, other.7, other.8),
        ) && self.9.same(&other.9)
    }

    proof fn lemma_one_reading(a: Self, b: Self, rest_a: Source, rest_b: Source) {
        let front_a = (a.0, a.1, a.2, a.3, a.4, a.5, a.6, a.7, a.8);
        let front_b = (b.0, b.1, b.2, b.3, b.4, b.5, b.6, b.7, b.8);
        let behind_a = rest_a.after(a.9.wire().unwrap(), a.9.variant_hints());
        let behind_b = rest_b.after(b.9.wire().unwrap(), b.9.variant_hints());
        crate::de::lemma_after_after(
            rest_a,
            front_a.wire().unwrap(),
            a.9.wire().unwrap(),
            front_a.variant_hints(),
            a.9.variant_hints(),
        );
        crate::de::lemma_after_after(
            rest_b,
            front_b.wire().unwrap(),
            b.9.wire().unwrap(),
            front_b.variant_hints(),
            b.9.variant_hints(),
        );
        <(T1, T2, T3, T4, T5, T6, T7, T8, T9)>::lemma_one_reading(
            front_a,
            front_b,
            behind_a,
            behind_b,
        );
        T10::lemma_one_reading(a.9, b.9, rest_a, rest_b);
    }
}

impl<
    T1: Deserialize,
    T2: Deserialize,
    T3: Deserialize,
    T4: Deserialize,
    T5: Deserialize,
    T6: Deserialize,
    T7: Deserialize,
    T8: Deserialize,
    T9: Deserialize,
    T10: Deserialize,
    T11: Deserialize,
> Deserialize for (T1, T2, T3, T4, T5, T6, T7, T8, T9, T10, T11) {
    open spec fn decoded(before: Source, r: Result<Self>, after: Source) -> bool {
        match r {
            Ok(t) => exists|mid: Source|
                {
                    &&& #[trigger] <(T1, T2, T3, T4, T5, T6, T7, T8, T9, T10)>::decoded(
                        before,
                        Ok((t.0, t.1, t.2, t.3, t.4, t.5, t.6, t.7, t.8, t.9)),
                        mid,
                    )
                    &&& T11::decoded(mid, Ok(t.10), after)
                },
            Err(e) => {
                ||| <(T1, T2, T3, T4, T5, T6, T7, T8, T9, T10)>::decoded(before, Err(e), after)
                ||| exists|front: (T1, T2, T3, T4, T5, T6, T7, T8, T9, T10), mid: Source|
                    {
                        &&& #[trigger] <(T1, T2, T3, T4, T5, T6, T7, T8, T9, T10)>::decoded(
                            before,
                            Ok(front),
                            mid,
                        )
                        &&& T11::decoded(mid, Err(e), after)
                    }
            },
        }
    }

    fn deserialize(de: &mut Deserializer) -> (r: Result<Self>) {
        let ghost before = de@;
        let front = <(T1, T2, T3, T4, T5, T6, T7, T8, T9, T10)>::deserialize(de)?;
        let ghost mid = de@;
        let last = T11::deserialize(de)?;
        proof {
            let t = (
                front.0,
                front.1,
                front.2,
                front.3,
                front.4,
                front.5,
                front.6,
                front.7,
                front.8,
                front.9,
                last,
            );
            assert((t.0, t.1, t.2, t.3, t.4, t.5, t.6, t.7, t.8, t.9) == front);
            let r: Result<Self> = Ok(t);
            assert(r.unwrap() == t);
        }
        Ok((
            front.0,
            front.1,
            front.2,
            front.3,
            front.4,
            front.5,
            front.6,
            front.7,
            front.8,
            front.9,
            last,
        ))
    }
}

impl<
    T1: DeserializeLaws,
    T2: DeserializeLaws,
    T3: DeserializeLaws,
    T4: DeserializeLaws,
    T5: DeserializeLaws,
    T6: DeserializeLaws,
    T7: DeserializeLaws,
    T8: DeserializeLaws,
    T9: DeserializeLaws,
    T10: DeserializeLaws,
    T11: DeserializeLaws,
> DeserializeLaws for (T1, T2, T3, T4, T5, T6, T7, T8, T9, T10, T11) {
    open spec fn reads_back(&self) -> bool {
        (
            self.0,
            self.1,
            self.2,
            self.3,
            self.4,
            self.5,
            self.6,
            self.7,
            self.8,
            self.9,
        ).reads_back() && self.10.reads_back()
    }

    proof fn lemma_decoded_was_written(before: Source, v: Self, after: Source) {
        let front = (v.0, v.1, v.2, v.3, v.4, v.5, v.6, v.7, v.8, v.9);
        let mid = choose|mid: Source|
            {
                &&& #[trigger] <(T1, T2, T3, T4, T5, T6, T7, T8, T9, T10)>::decoded(
                    before,
                    Ok(front),
                    mid,
                )
                &&& T11::decoded(mid, Ok(v.10), after)
            };
        <(T1, T2, T3, T4, T5, T6, T7, T8, T9, T10)>::lemma_decoded_was_written(before, front, mid);
        T11::lemma_decoded_was_written(mid, v.10, after);
        crate::de::lemma_after_after(
            after,
            front.wire().unwrap(),
            v.10.wire().unwrap(),
            front.variant_hints(),
            v.10.variant_hints(),
        );
    }

    proof fn lemma_written_is_decoded(v: Self, rest: Source, r: Result<Self>, after: Source) {
        let front = (v.0, v.1, v.2, v.3, v.4, v.5, v.6, v.7, v.8, v.9);
        let start = rest.after(v.wire().unwrap(), v.variant_hints());
        let behind = rest.after(v.10.wire().unwrap(), v.10.variant_hints());
        crate::de::lemma_after_after(
            rest,
            front.wire().unwrap(),
            v.10.wire().unwrap(),
            front.variant_hints(),
            v.10.variant_hints(),
        );
        match r {
            Ok(t) => {
                let read = (t.0, t.1, t.2, t.3, t.4, t.5, t.6, t.7, t.8, t.9);
                let mid = choose|mid: Source|
                    {
                        &&& #[trigger] <(T1, T2, T3, T4, T5, T6, T7, T8, T9, T10)>::decoded(
                            start,
                            Ok(read),
                            mid,
                        )
                        &&& T11::decoded(mid, Ok(t.10), after)
                    };
                <(T1, T2, T3, T4, T5, T6, T7, T8, T9, T10)>::lemma_written_is_decoded(
                    front,
                    behind,
                    Ok(read),
                    mid,
                );
                T11::lemma_written_is_decoded(v.10, rest, Ok(t.10), after);
            },
            Err(e) => {
                if <(T1, T2, T3, T4, T5, T6, T7, T8, T9, T10)>::decoded(start, Err(e), after) {
                    <(T1, T2, T3, T4, T5, T6, T7, T8, T9, T10)>::lemma_written_is_decoded(
                        front,
                        behind,
                        Err(e),
                        after,
                    );
                } else {
                    let (read, mid) = choose|
                        read: (T1, T2, T3, T4, T5, T6, T7, T8, T9, T10),
                        mid: Source,
                    |
                        {
                            &&& #[trigger] <(T1, T2, T3, T4, T5, T6, T7, T8, T9, T10)>::decoded(
                                start,
                                Ok(read),
                                mid,
                            )
                            &&& T11::decoded(mid, Err(e), after)
                        };
                    <(T1, T2, T3, T4, T5, T6, T7, T8, T9, T10)>::lemma_written_is_decoded(
                        front,
                        behind,
                        Ok(read),
                        mid,
                    );
                    T11::lemma_written_is_decoded(v.10, rest, Err(e), after);
                }
            },
        }
    }

    open spec fn same(&self, other: &Self) -> bool {
        (
            self.0,
            self.1,
            self.2,
            self.3,
            self.4,
            self.5,
            self.6,
            self.7,
            self.8,
            self.9,
        ).same(
            &(
                other.0,
                other.1,
                other.2,
                other.3,
                other.4,
                other.5,
                other.6,
                other.7,
                other.8,
                other.9,
            ),
        ) && self.10.same(&other.10)
    }

    proof fn lemma_one_reading(a: Self, b: Self, rest_a: Source, rest_b: Source) {
        let front_a = (a.0, a.1, a.2, a.3, a.4, a.5, a.6, a.7, a.8, a.9);
        let front_b = (b.0, b.1, b.2, b.3, b.4, b.5, b.6, b.7, b.8, b.9);
        let behind_a = rest_a.after(a.10.wire().unwrap(), a.10.variant_hints());
        let behind_b = rest_b.after(b.10.wire().unwrap(), b.10.variant_hints());
        crate::de::lemma_after_after(
            rest_a,
            front_a.wire().unwrap(),
            a.10.wire().unwrap(),
            front_a.variant_hints(),
            a.10.variant_hints(),
        );
        crate::de::lemma_after_after(
            rest_b,
            front_b.wire().unwrap(),
            b.10.wire().unwrap(),
            front_b.variant_hints(),
            b.10.variant_hints(),
        );
        <(T1, T2, T3, T4, T5, T6, T7, T8, T9, T10)>::lemma_one_reading(
            front_a,
            front_b,
            behind_a,
            behind_b,
        );
        T11::lemma_one_reading(a.10, b.10, rest_a, rest_b);
    }
}

impl<
    T1: Deserialize,
    T2: Deserialize,
    T3: Deserialize,
    T4: Deserialize,
    T5: Deserialize,
    T6: Deserialize,
    T7: Deserialize,
    T8: Deserialize,
    T9: Deserialize,
    T10: Deserialize,
    T11: Deserialize,
    T12: Deserialize,
> Deserialize for (T1, T2, T3, T4, T5, T6, T7, T8, T9, T10, T11, T12) {
    open spec fn decoded(before: Source, r: Result<Self>, after: Source) -> bool {
        match r {
            Ok(t) => exists|mid: Source|
                {
                    &&& #[trigger] <(T1, T2, T3, T4, T5, T6, T7, T8, T9, T10, T11)>::decoded(
                        before,
                        Ok((t.0, t.1, t.2, t.3, t.4, t.5, t.6, t.7, t.8, t.9, t.10)),
                        mid,
                    )
                    &&& T12::decoded(mid, Ok(t.11), after)
                },
            Err(e) => {
                ||| <(T1, T2, T3, T4, T5, T6, T7, T8, T9, T10, T11)>::decoded(before, Err(e), after)
                ||| exists|front: (T1, T2, T3, T4, T5, T6, T7, T8, T9, T10, T11), mid: Source|
                    {
                        &&& #[trigger] <(T1, T2, T3, T4, T5, T6, T7, T8, T9, T10, T11)>::decoded(
                            before,
                            Ok(front),
                            mid,
                        )
                        &&& T12::decoded(mid, Err(e), after)
                    }
            },
        }
    }

    fn deserialize(de: &mut Deserializer) -> (r: Result<Self>) {
        let ghost before = de@;
        let front = <(T1, T2, T3, T4, T5, T6, T7, T8, T9, T10, T11)>::deserialize(de)?;
        let ghost mid = de@;
        let last = T12::deserialize(de)?;
        proof {
            let t = (
                front.0,
                front.1,
                front.2,
                front.3,
                front.4,
                front.5,
                front.6,
                front.7,
                front.8,
                front.9,
                front.10,
                last,
            );
            assert((t.0, t.1, t.2, t.3, t.4, t.5, t.6, t.7, t.8, t.9, t.10) == front);
            let r: Result<Self> = Ok(t);
            assert(r.unwrap() == t);
        }
        Ok((
            front.0,
            front.1,
            front.2,
            front.3,
            front.4,
            front.5,
            front.6,
            front.7,
            front.8,
            front.9,
            front.10,
            last,
        ))
    }
}

impl<
    T1: DeserializeLaws,
    T2: DeserializeLaws,
    T3: DeserializeLaws,
    T4: DeserializeLaws,
    T5: DeserializeLaws,
    T6: DeserializeLaws,
    T7: DeserializeLaws,
    T8: DeserializeLaws,
    T9: DeserializeLaws,
    T10: DeserializeLaws,
    T11: DeserializeLaws,
    T12: DeserializeLaws,
> DeserializeLaws for (T1, T2, T3, T4, T5, T6, T7, T8, T9, T10, T11, T12) {
    open spec fn reads_back(&self) -> bool {
        (
            self.0,
            self.1,
            self.2,
            self.3,
            self.4,
            self.5,
            self.6,
            self.7,
            self.8,
            self.9,
            self.10,
        ).reads_back() && self.11.reads_back()
    }

    proof fn lemma_decoded_was_written(before: Source, v: Self, after: Source) {
        let front = (v.0, v.1, v.2, v.3, v.4, v.5, v.6, v.7, v.8, v.9, v.10);
        let mid = choose|mid: Source|
            {
                &&& #[trigger] <(T1, T2, T3, T4, T5, T6, T7, T8, T9, T10, T11)>::decoded(
                    before,
                    Ok(front),
                    mid,
                )
                &&& T12::decoded(mid, Ok(v.11), after)
            };
        <(T1, T2, T3, T4, T5, T6, T7, T8, T9, T10, T11)>::lemma_decoded_was_written(
            before,
            front,
            mid,
        );
        T12::lemma_decoded_was_written(mid, v.11, after);
        crate::de::lemma_after_after(
            after,
            front.wire().unwrap(),
            v.11.wire().unwrap(),
            front.variant_hints(),
            v.11.variant_hints(),
        );
    }

    proof fn lemma_written_is_decoded(v: Self, rest: Source, r: Result<Self>, after: Source) {
        let front = (v.0, v.1, v.2, v.3, v.4, v.5, v.6, v.7, v.8, v.9, v.10);
        let start = rest.after(v.wire().unwrap(), v.variant_hints());
        let behind = rest.after(v.11.wire().unwrap(), v.11.variant_hints());
        crate::de::lemma_after_after(
            rest,
            front.wire().unwrap(),
            v.11.wire().unwrap(),
            front.variant_hints(),
            v.11.variant_hints(),
        );
        match r {
            Ok(t) => {
                let read = (t.0, t.1, t.2, t.3, t.4, t.5, t.6, t.7, t.8, t.9, t.10);
                let mid = choose|mid: Source|
                    {
                        &&& #[trigger] <(T1, T2, T3, T4, T5, T6, T7, T8, T9, T10, T11)>::decoded(
                            start,
                            Ok(read),
                            mid,
                        )
                        &&& T12::decoded(mid, Ok(t.11), after)
                    };
                <(T1, T2, T3, T4, T5, T6, T7, T8, T9, T10, T11)>::lemma_written_is_decoded(
                    front,
                    behind,
                    Ok(read),
                    mid,
                );
                T12::lemma_written_is_decoded(v.11, rest, Ok(t.11), after);
            },
            Err(e) => {
                if <(T1, T2, T3, T4, T5, T6, T7, T8, T9, T10, T11)>::decoded(start, Err(e), after) {
                    <(T1, T2, T3, T4, T5, T6, T7, T8, T9, T10, T11)>::lemma_written_is_decoded(
                        front,
                        behind,
                        Err(e),
                        after,
                    );
                } else {
                    let (read, mid) = choose|
                        read: (T1, T2, T3, T4, T5, T6, T7, T8, T9, T10, T11),
                        mid: Source,
                    |
                        {
                            &&& #[trigger] <(T1, T2, T3, T4, T5, T6, T7, T8, T9, T10, T11)>::decoded(
                                start,
                                Ok(read),
                                mid,
                            )
                            &&& T12::decoded(mid, Err(e), after)
                        };
                    <(T1, T2, T3, T4, T5, T6, T7, T8, T9, T10, T11)>::lemma_written_is_decoded(
                        front,
                        behind,
                        Ok(read),
                        mid,
                    );
                    T12::lemma_written_is_decoded(v.11, rest, Err(e), after);
                }
            },
        }
    }

    open spec fn same(&self, other: &Self) -> bool {
        (
            self.0,
            self.1,
            self.2,
            self.3,
            self.4,
            self.5,
            self.6,
            self.7,
            self.8,
            self.9,
            self.10,
        ).same(
            &(
                other.0,
                other.1,
                other.2,
                other.3,
                other.4,
                other.5,
                other.6,
                other.7,
                other.8,
                other.9,
                other.10,
            ),
        ) && self.11.same(&other.11)
    }

    proof fn lemma_one_reading(a: Self, b: Self, rest_a: Source, rest_b: Source) {
        let front_a = (a.0, a.1, a.2, a.3, a.4, a.5, a.6, a.7, a.8, a.9, a.10);
        let front_b = (b.0, b.1, b.2, b.3, b.4, b.5, b.6, b.7, b.8, b.9, b.10);
        let behind_a = rest_a.after(a.11.wire().unwrap(), a.11.variant_hints());
        let behind_b = rest_b.after(b.11.wire().unwrap(), b.11.variant_hints());
        crate::de::lemma_after_after(
            rest_a,
            front_a.wire().unwrap(),
            a.11.wire().unwrap(),
            front_a.variant_hints(),
            a.11.variant_hints(),
        );
        crate::de::lemma_after_after(
            rest_b,
            front_b.wire().unwrap(),
            b.11.wire().unwrap(),
            front_b.variant_hints(),
            b.11.variant_hints(),
        );
        <(T1, T2, T3, T4, T5, T6, T7, T8, T9, T10, T11)>::lemma_one_reading(
            front_a,
            front_b,
            behind_a,
            behind_b,
        );
        T12::lemma_one_reading(a.11, b.11, rest_a, rest_b);
    }
}

} // verus!
