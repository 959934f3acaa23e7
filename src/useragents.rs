//! Browser user-agent strings to send with requests.
use vstd::prelude::*;

verus! {

/// The user agents on offer, in order.
pub open spec fn agent_list() -> Seq<Seq<char>> {
    seq![
        "Mozilla/5.0 (Windows NT 10.0; Win64; x64) AppleWebKit/537.36 (KHTML, like Gecko) Chrome/120.0.0.0 Safari/537.36"@,
        "Mozilla/5.0 (Windows NT 10.0; Win64; x64; rv:121.0) Gecko/20100101 Firefox/121.0"@,
        "Mozilla/5.0 (Macintosh; Intel Mac OS X 10_15_7) AppleWebKit/605.1.15 (KHTML, like Gecko) Version/17.2 Safari/605.1.15"@,
        "Mozilla/5.0 (Macintosh; Intel Mac OS X 10.15; rv:121.0) Gecko/20100101 Firefox/121.0"@,
        "Mozilla/5.0 (X11; Linux x86_64) AppleWebKit/537.36 (KHTML, like Gecko) Chrome/120.0.0.0 Safari/537.36"@,
        "Mozilla/5.0 (X11; Ubuntu; Linux x86_64; rv:121.0) Gecko/20100101 Firefox/121.0"@,
        "Mozilla/5.0 (Windows NT 10.0; Win64; x64) AppleWebKit/537.36 (KHTML, like Gecko) Chrome/120.0.0.0 Safari/537.36 Edg/120.0.0.0"@,
        "Mozilla/5.0 (iPhone; CPU iPhone OS 17_2 like Mac OS X) AppleWebKit/605.1.15 (KHTML, like Gecko) Version/17.2 Mobile/15E148 Safari/604.1"@,
        "Mozilla/5.0 (Linux; Android 14; Pixel 8) AppleWebKit/537.36 (KHTML, like Gecko) Chrome/120.0.0.0 Mobile Safari/537.36"@,
        "Mozilla/5.0 (Windows NT 6.1; WOW64; Trident/7.0; rv:11.0) like Gecko"@,
    ]
}

pub assume_specification<T>[ rand::random::<T> ]() -> (r: T)
    where
        rand::distributions::Standard: rand::distributions::Distribution<T>,
;

/// A fixed list of browser user agents.
pub struct UserAgents {
    agents: Vec<&'static str>,
}

impl UserAgents {
    pub closed spec fn agents(&self) -> Seq<Seq<char>> {
        self.agents@.map_values(|a: &'static str| a@)
    }

    pub fn new() -> (r: Self)
        ensures
            r.agents() == agent_list(),
    {
        let agents: Vec<&'static str> = vec![
            "Mozilla/5.0 (Windows NT 10.0; Win64; x64) AppleWebKit/537.36 (KHTML, like Gecko) Chrome/120.0.0.0 Safari/537.36",
            "Mozilla/5.0 (Windows NT 10.0; Win64; x64; rv:121.0) Gecko/20100101 Firefox/121.0",
            "Mozilla/5.0 (Macintosh; Intel Mac OS X 10_15_7) AppleWebKit/605.1.15 (KHTML, like Gecko) Version/17.2 Safari/605.1.15",
            "Mozilla/5.0 (Macintosh; Intel Mac OS X 10.15; rv:121.0) Gecko/20100101 Firefox/121.0",
            "Mozilla/5.0 (X11; Linux x86_64) AppleWebKit/537.36 (KHTML, like Gecko) Chrome/120.0.0.0 Safari/537.36",
            "Mozilla/5.0 (X11; Ubuntu; Linux x86_64; rv:121.0) Gecko/20100101 Firefox/121.0",
            "Mozilla/5.0 (Windows NT 10.0; Win64; x64) AppleWebKit/537.36 (KHTML, like Gecko) Chrome/120.0.0.0 Safari/537.36 Edg/120.0.0.0",
            "Mozilla/5.0 (iPhone; CPU iPhone OS 17_2 like Mac OS X) AppleWebKit/605.1.15 (KHTML, like Gecko) Version/17.2 Mobile/15E148 Safari/604.1",
            "Mozilla/5.0 (Linux; Android 14; Pixel 8) AppleWebKit/537.36 (KHTML, like Gecko) Chrome/120.0.0.0 Mobile Safari/537.36",
            "Mozilla/5.0 (Windows NT 6.1; WOW64; Trident/7.0; rv:11.0) like Gecko",
        ];
        let r = UserAgents { agents };
        assert(r.agents() =~= agent_list());
        r
    }

    /// The agent at `index`, counted modulo the number of agents.
    pub fn pick(&self, index: usize) -> (r: String)
        requires
            self.agents().len() > 0,
        ensures
            r@ == self.agents()[(index as int) % (self.agents().len() as int)],
    {
        let i = index % self.agents.len();
        String::from_str(self.agents[i])
    }

    /// One of the agents, chosen at random.
    pub fn get_random(&self) -> (r: String)
        requires
            self.agents().len() > 0,
        ensures
            self.agents().contains(r@),
    {
        let x: usize = rand::random();
        let r = self.pick(x);
        assert(self.agents()[(x as int) % (self.agents().len() as int)] == r@);
        r
    }

    /// Every agent, in order.
    pub fn get_all(&self) -> (r: Vec<String>)
        ensures
            r@.map_values(|s: String| s@) == self.agents(),
    {
        let mut out: Vec<String> = Vec::new();
        let mut i: usize = 0;
        while i < self.agents.len()
            invariant
                i <= self.agents@.len(),
                out@.map_values(|s: String| s@) == self.agents().subrange(0, i as int),
            decreases self.agents@.len() - i,
        {
            let ghost before = out@.map_values(|s: String| s@);
            out.push(String::from_str(self.agents[i]));
            assert(out@.map_values(|s: String| s@) =~= before.push(self.agents()[i as int]));
            assert(self.agents().subrange(0, i as int + 1) =~= self.agents().subrange(0, i as int).push(
                self.agents()[i as int],
            ));
            i += 1;
        }
        assert(self.agents().subrange(0, i as int) =~= self.agents());
        out
    }
}

} // verus!
