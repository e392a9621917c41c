use vstd::prelude::*;

verus! {

/// The decimal digit character for `d` in `0..10`.
pub open spec fn digit_char(d: int) -> char {
    if d == 0 {
        '0'
    } else if d == 1 {
        '1'
    } else if d == 2 {
        '2'
    } else if d == 3 {
        '3'
    } else if d == 4 {
        '4'
    } else if d == 5 {
        '5'
    } else if d == 6 {
        '6'
    } else if d == 7 {
        '7'
    } else if d == 8 {
        '8'
    } else {
        '9'
    }
}

/// The decimal rendering of `v` in `0..100`: one or two digit characters.
pub open spec fn decimal_chars(v: int) -> Seq<char> {
    if v < 10 {
        seq![digit_char(v)]
    } else {
        seq![digit_char(v / 10), digit_char(v % 10)]
    }
}

fn digit_str(d: u8) -> (r: &'static str)
    requires
        d < 10,
    ensures
        r@ == seq![digit_char(d as int)],
{
    match d {
        0 => {
            proof {
                reveal_strlit("0");
            }
            let r = "0";
            proof {
                assert(r@ =~= seq![digit_char(0)]);
            }
            r
        },
        1 => {
            proof {
                reveal_strlit("1");
            }
            let r = "1";
            proof {
                assert(r@ =~= seq![digit_char(1)]);
            }
            r
        },
        2 => {
            proof {
                reveal_strlit("2");
            }
            let r = "2";
            proof {
                assert(r@ =~= seq![digit_char(2)]);
            }
            r
        },
        3 => {
            proof {
                reveal_strlit("3");
            }
            let r = "3";
            proof {
                assert(r@ =~= seq![digit_char(3)]);
            }
            r
        },
        4 => {
            proof {
                reveal_strlit("4");
            }
            let r = "4";
            proof {
                assert(r@ =~= seq![digit_char(4)]);
            }
            r
        },
        5 => {
            proof {
                reveal_strlit("5");
            }
            let r = "5";
            proof {
                assert(r@ =~= seq![digit_char(5)]);
            }
            r
        },
        6 => {
            proof {
                reveal_strlit("6");
            }
            let r = "6";
            proof {
                assert(r@ =~= seq![digit_char(6)]);
            }
            r
        },
        7 => {
            proof {
                reveal_strlit("7");
            }
            let r = "7";
            proof {
                assert(r@ =~= seq![digit_char(7)]);
            }
            r
        },
        8 => {
            proof {
                reveal_strlit("8");
            }
            let r = "8";
            proof {
                assert(r@ =~= seq![digit_char(8)]);
            }
            r
        },
        _ => {
            proof {
                reveal_strlit("9");
            }
            let r = "9";
            proof {
                assert(r@ =~= seq![digit_char(9)]);
            }
            r
        },
    }
}

/// The decimal label of `v`, for small values such as guide indexes.
pub fn decimal_label(v: u8) -> (r: String)
    requires
        v < 100,
    ensures
        r@ == decimal_chars(v as int),
{
    if v < 10 {
        let r = String::from_str(digit_str(v));
        proof {
            assert(r@ =~= decimal_chars(v as int));
        }
        r
    } else {
        let r = String::from_str(digit_str(v / 10)).concat(digit_str(v % 10));
        proof {
            assert(r@ =~= decimal_chars(v as int));
        }
        r
    }
}

/// The digit-to-display-string lookup the rendering engine consumes: a total
/// function with a one-space fallback for an unmapped digit or an absent
/// value.
#[derive(Debug)]
pub struct ValueLabels {
    pub labels: Vec<String>,
}

impl ValueLabels {
    /// The display text for a cell value: the mapped label of the digit, or a
    /// single space for an unmapped digit or an unset cell.
    pub open spec fn label_of(self, value: Option<u8>) -> Seq<char> {
        match value {
            Some(v) => if v < self.labels@.len() {
                self.labels@[v as int]@
            } else {
                " "@
            },
            None => " "@,
        }
    }

    /// The conventional labels "1", "2", ... for the digits `0..size`.
    pub fn standard(size: u8) -> (r: ValueLabels)
        requires
            size < 100,
        ensures
            r.labels@.len() == size,
            forall|i: int| 0 <= i < size ==> (#[trigger] r.labels@[i])@ == decimal_chars(i + 1),
    {
        let mut labels: Vec<String> = Vec::new();
        let mut i: u8 = 0;
        while i < size
            invariant
                size < 100,
                i <= size,
                labels@.len() == i,
                forall|j: int| 0 <= j < i ==> (#[trigger] labels@[j])@ == decimal_chars(j + 1),
            decreases size - i,
        {
            labels.push(decimal_label(i + 1));
            i = i + 1;
        }
        ValueLabels { labels }
    }

    /// Look a cell value up, falling back to a single space.
    pub fn get(&self, value: Option<u8>) -> (r: String)
        ensures
            r@ == self.label_of(value),
    {
        proof {
            reveal_strlit(" ");
        }
        match value {
            Some(v) => {
                if (v as usize) < self.labels.len() {
                    self.labels[v as usize].clone()
                } else {
                    String::from_str(" ")
                }
            },
            None => String::from_str(" "),
        }
    }
}

} // verus!
