use vstd::prelude::*;

verus! {

/// One position in a portfolio.
///
/// Quantities are fixed-point with four decimal places (`12_500` is 1.25
/// units); prices and values are in cents.
pub struct Holding {
    pub ticker: String,
    pub asset_class: String,
    /// Units held, in ten-thousandths; may be zero or negative.
    pub quantity: i64,
    /// Cost basis per unit, in cents.
    pub avg_cost: i64,
    /// Last observed price per unit, in cents; carried along, not used.
    pub current_price: Option<i64>,
    /// Current value of the whole position, in cents; when present it decides
    /// the holding's value.
    pub market_value: Option<i64>,
}

/// The categories that the risk and return tables know.
#[derive(Clone, Copy, Debug, PartialEq, Eq, Structural)]
pub enum AssetClass {
    Cash,
    Bond,
    Equity,
    Crypto,
    Commodity,
    RealEstate,
    Other,
}

/// The category named by `name`: exact, case-sensitive match.
pub open spec fn class_of(name: Seq<char>) -> AssetClass {
    if name == "cash"@ {
        AssetClass::Cash
    } else if name == "bond"@ {
        AssetClass::Bond
    } else if name == "equity"@ {
        AssetClass::Equity
    } else if name == "crypto"@ {
        AssetClass::Crypto
    } else if name == "commodity"@ {
        AssetClass::Commodity
    } else if name == "real_estate"@ {
        AssetClass::RealEstate
    } else {
        AssetClass::Other
    }
}

/// Assumed volatility of a category, in percent.
pub open spec fn volatility_pct(c: AssetClass) -> int {
    match c {
        AssetClass::Cash => 1,
        AssetClass::Bond => 5,
        AssetClass::Equity => 18,
        AssetClass::Crypto => 80,
        AssetClass::Commodity => 25,
        AssetClass::RealEstate => 12,
        AssetClass::Other => 15,
    }
}

/// Assumed yearly return of a category, in percent.
pub open spec fn return_pct(c: AssetClass) -> int {
    match c {
        AssetClass::Cash => 4,
        AssetClass::Bond => 5,
        AssetClass::Equity => 10,
        AssetClass::Crypto => 15,
        AssetClass::Commodity => 8,
        AssetClass::RealEstate => 9,
        AssetClass::Other => 7,
    }
}

/// Value of a holding in millionths of a currency unit: its market value when
/// it has one, else quantity times average cost (ten-thousandths times cents).
pub open spec fn value_of(h: Holding) -> int {
    match h.market_value {
        Some(m) => m * 100 * 100,
        None => h.quantity * h.avg_cost,
    }
}

pub open spec fn class_of_holding(h: Holding) -> AssetClass {
    class_of(h.asset_class@)
}

/// A product of two `i64` values lies well inside the `i128` range.
pub proof fn lemma_product_fits(a: int, b: int)
    requires
        i64::MIN <= a <= i64::MAX,
        i64::MIN <= b <= i64::MAX,
    ensures
        -0x4000_0000_0000_0000_0000_0000_0000_0000 <= a * b <= 0x4000_0000_0000_0000_0000_0000_0000_0000,
{
    let m: int = 0x8000_0000_0000_0000;
    assert(-m <= a <= m && -m <= b <= m);
    assert(-(m * m) <= a * b <= m * m) by (nonlinear_arith)
        requires
            -m <= a <= m,
            -m <= b <= m,
    ;
}

/// A holding's value lies well inside the `i128` range.
pub proof fn lemma_value_bounded(h: Holding)
    ensures
        -0x4000_0000_0000_0000_0000_0000_0000_0000 <= value_of(h) <= 0x4000_0000_0000_0000_0000_0000_0000_0000,
{
    lemma_product_fits(h.quantity as int, h.avg_cost as int);
}

impl AssetClass {
    /// Reads a category name.
    pub fn from_name(name: &String) -> (c: AssetClass)
        ensures
            c == class_of(name@),
    {
        if *name == "cash".to_owned() {
            AssetClass::Cash
        } else if *name == "bond".to_owned() {
            AssetClass::Bond
        } else if *name == "equity".to_owned() {
            AssetClass::Equity
        } else if *name == "crypto".to_owned() {
            AssetClass::Crypto
        } else if *name == "commodity".to_owned() {
            AssetClass::Commodity
        } else if *name == "real_estate".to_owned() {
            AssetClass::RealEstate
        } else {
            AssetClass::Other
        }
    }

    /// Assumed volatility, in percent.
    pub fn volatility(self) -> (r: i128)
        ensures
            r == volatility_pct(self),
    {
        match self {
            AssetClass::Cash => 1,
            AssetClass::Bond => 5,
            AssetClass::Equity => 18,
            AssetClass::Crypto => 80,
            AssetClass::Commodity => 25,
            AssetClass::RealEstate => 12,
            AssetClass::Other => 15,
        }
    }

    /// Assumed yearly return, in percent.
    pub fn expected_return(self) -> (r: i128)
        ensures
            r == return_pct(self),
    {
        match self {
            AssetClass::Cash => 4,
            AssetClass::Bond => 5,
            AssetClass::Equity => 10,
            AssetClass::Crypto => 15,
            AssetClass::Commodity => 8,
            AssetClass::RealEstate => 9,
            AssetClass::Other => 7,
        }
    }
}

impl Holding {
    /// The holding's value in millionths of a currency unit, by the rule of
    /// `value_of`.
    pub fn value(&self) -> (v: i128)
        ensures
            v == value_of(*self),
    {
        match self.market_value {
            Some(m) => (m as i128) * 100 * 100,
            None => {
                let q = self.quantity as i128;
                let c = self.avg_cost as i128;
                proof {
                    lemma_product_fits(q as int, c as int);
                }
                q * c
            },
        }
    }
}

} // verus!
