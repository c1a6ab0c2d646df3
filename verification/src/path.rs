//! Tile locator: maps a cell to the relative path of its tile,
//! `<latDir>/<latDir><lngDir>.hgt.gz`.
//!
//! `latDir` is `N` or `S` followed by the two-digit zero-padded magnitude of
//! the latitude; `lngDir` is `E` or `W` followed by three digits. A negative
//! value selects `S` or `W`; zero and above select `N` or `E`.

use vstd::math::abs;
use vstd::prelude::*;

verus! {

/// The decimal digit character for `d` in `0..10`.
pub open spec fn digit_char(d: int) -> char {
    if d == 0 {
        '0'
    } else if d == 1 {
        '1'
    } else if d == 2 {
        '2'
    } else if d == 3 {
        '3'
    } else if d == 4 {
        '4'
    } else if d == 5 {
        '5'
    } else if d == 6 {
        '6'
    } else if d == 7 {
        '7'
    } else if d == 8 {
        '8'
    } else {
        '9'
    }
}

/// `N` or `S` with the two-digit zero-padded magnitude of the latitude.
pub open spec fn lat_dir_spec(lat: int) -> Seq<char> {
    let a = abs(lat) as int;
    seq![
        if lat < 0 {
            'S'
        } else {
            'N'
        },
        digit_char(a / 10),
        digit_char(a % 10),
    ]
}

/// `E` or `W` with the three-digit zero-padded magnitude of the longitude.
pub open spec fn lng_dir_spec(lng: int) -> Seq<char> {
    let a = abs(lng) as int;
    seq![
        if lng < 0 {
            'W'
        } else {
            'E'
        },
        digit_char(a / 100),
        digit_char((a / 10) % 10),
        digit_char(a % 10),
    ]
}

/// The relative path of the tile for the cell `(lat, lng)`:
/// `<latDir>/<latDir><lngDir>.hgt.gz`, with forward slashes on every host.
pub open spec fn path_spec(lat: int, lng: int) -> Seq<char> {
    lat_dir_spec(lat) + seq!['/'] + lat_dir_spec(lat) + lng_dir_spec(lng)
        + seq!['.', 'h', 'g', 't', '.', 'g', 'z']
}

/// The one-character string for the digit `d`.
fn digit_str(d: u32) -> (r: &'static str)
    requires
        d < 10,
    ensures
        r@ == seq![digit_char(d as int)],
{
    if d == 0 {
        proof {
            reveal_strlit("0");
            assert("0"@ =~= seq![digit_char(0)]);
        }
        "0"
    } else if d == 1 {
        proof {
            reveal_strlit("1");
            assert("1"@ =~= seq![digit_char(1)]);
        }
        "1"
    } else if d == 2 {
        proof {
            reveal_strlit("2");
            assert("2"@ =~= seq![digit_char(2)]);
        }
        "2"
    } else if d == 3 {
        proof {
            reveal_strlit("3");
            assert("3"@ =~= seq![digit_char(3)]);
        }
        "3"
    } else if d == 4 {
        proof {
            reveal_strlit("4");
            assert("4"@ =~= seq![digit_char(4)]);
        }
        "4"
    } else if d == 5 {
        proof {
            reveal_strlit("5");
            assert("5"@ =~= seq![digit_char(5)]);
        }
        "5"
    } else if d == 6 {
        proof {
            reveal_strlit("6");
            assert("6"@ =~= seq![digit_char(6)]);
        }
        "6"
    } else if d == 7 {
        proof {
            reveal_strlit("7");
            assert("7"@ =~= seq![digit_char(7)]);
        }
        "7"
    } else if d == 8 {
        proof {
            reveal_strlit("8");
            assert("8"@ =~= seq![digit_char(8)]);
        }
        "8"
    } else {
        proof {
            reveal_strlit("9");
            assert("9"@ =~= seq![digit_char(9)]);
        }
        "9"
    }
}

/// The latitude directory component for a floored latitude.
fn lat_dir(lat: i32) -> (r: String)
    requires
        -90 <= lat <= 90,
    ensures
        r@ == lat_dir_spec(lat as int),
{
    let prefix = if lat < 0 {
        proof {
            reveal_strlit("S");
            assert("S"@ =~= seq!['S']);
        }
        "S"
    } else {
        proof {
            reveal_strlit("N");
            assert("N"@ =~= seq!['N']);
        }
        "N"
    };
    let a: i32 = if lat < 0 {
        -lat
    } else {
        lat
    };
    let mut r = String::from_str(prefix);
    r.append(digit_str((a / 10) as u32));
    r.append(digit_str((a % 10) as u32));
    proof {
        assert(r@ =~= lat_dir_spec(lat as int));
    }
    r
}

/// The longitude directory component for a floored longitude.
fn lng_dir(lng: i32) -> (r: String)
    requires
        -180 <= lng <= 180,
    ensures
        r@ == lng_dir_spec(lng as int),
{
    let prefix = if lng < 0 {
        proof {
            reveal_strlit("W");
            assert("W"@ =~= seq!['W']);
        }
        "W"
    } else {
        proof {
            reveal_strlit("E");
            assert("E"@ =~= seq!['E']);
        }
        "E"
    };
    let a: i32 = if lng < 0 {
        -lng
    } else {
        lng
    };
    let mut r = String::from_str(prefix);
    r.append(digit_str((a / 100) as u32));
    r.append(digit_str(((a / 10) % 10) as u32));
    r.append(digit_str((a % 10) as u32));
    proof {
        assert(r@ =~= lng_dir_spec(lng as int));
    }
    r
}

/// The relative path of the tile that holds the cell `(lat_floor, lng_floor)`.
///
/// The caller passes the floors of the coordinate, so the result depends only
/// on the cell, never on the fractional part of a coordinate.
pub fn get_file_path(lat_floor: i32, lng_floor: i32) -> (r: String)
    requires
        crate::types::valid_cell(lat_floor as int, lng_floor as int),
    ensures
        r@ == path_spec(lat_floor as int, lng_floor as int),
{
    let lat_d = lat_dir(lat_floor);
    let lng_d = lng_dir(lng_floor);
    let mut r = lat_d.clone();
    proof {
        reveal_strlit("/");
        assert("/"@ =~= seq!['/']);
        reveal_strlit(".hgt.gz");
        assert(".hgt.gz"@ =~= seq!['.', 'h', 'g', 't', '.', 'g', 'z']);
    }
    r.append("/");
    r.append(lat_d.as_str());
    r.append(lng_d.as_str());
    r.append(".hgt.gz");
    proof {
        assert(r@ =~= path_spec(lat_floor as int, lng_floor as int));
    }
    r
}

} // verus!
